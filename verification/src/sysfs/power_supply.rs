//! Supplies of the `power_supply` class: which one is a USB-C input that
//! is charging, and what it reports.

use vstd::prelude::*;
use crate::model::{LiveCharge, LiveChargeView, opt_view};
use crate::numparse::{IntErrorKind, parse_i64, parse_int};
use crate::sysfs::{read_trim, trimmed};
use crate::text::{str_eq, trim};

verus! {

/// A directory entry of the `power_supply` class with the attribute files
/// read from it.
pub struct SupplyFiles {
    /// The entry's name.
    pub name: String,
    /// `type`.
    pub kind: Option<String>,
    pub online: Option<String>,
    pub voltage_now: Option<String>,
    pub current_now: Option<String>,
    pub voltage_max: Option<String>,
    pub current_max: Option<String>,
}

/// Whether a supply's `type` names a USB-C / USB-PD input: the kernel
/// reports `USB`, `USB_PD`, `USB_PD_DRP` or `USB_C` for those.
pub open spec fn usb_pd_type(kind: Option<String>) -> bool {
    match trimmed(kind) {
        Some(t) => t == "USB"@ || t == "USB_PD"@ || t == "USB_PD_DRP"@ || t == "USB_C"@,
        None => false,
    }
}

/// What an integer attribute reads as, when it is an `i64`.
pub open spec fn int_attr(raw: Option<String>) -> Option<i64> {
    match trimmed(raw) {
        Some(t) => match parse_int(t, 10, i64::MIN as int, i64::MAX as int) {
            Ok(v) => Some(v as i64),
            Err(_) => None,
        },
        None => None,
    }
}

/// Whether a supply is a USB-C input that is online.
pub open spec fn sinking(f: SupplyFiles) -> bool {
    usb_pd_type(f.kind) && int_attr(f.online) == Some(1i64)
}

/// The charge that a supply reports.
pub open spec fn charge_of(f: SupplyFiles) -> LiveChargeView {
    LiveChargeView {
        supply: f.name@,
        online: true,
        voltage_now_uv: int_attr(f.voltage_now),
        current_now_ua: int_attr(f.current_now),
        voltage_max_uv: int_attr(f.voltage_max),
        current_max_ua: int_attr(f.current_max),
    }
}

/// The charge of the first supply, in the order given, that is a USB-C
/// input and online; `None` when there is none.
pub open spec fn first_sinking(s: Seq<SupplyFiles>) -> Option<LiveChargeView>
    decreases s.len(),
{
    if s.len() == 0 {
        None
    } else if sinking(s[0]) {
        Some(charge_of(s[0]))
    } else {
        first_sinking(s.drop_first())
    }
}

/// A supply is a charging USB-C input exactly when its trimmed `type` is
/// `USB`, `USB_PD`, `USB_PD_DRP` or `USB_C` and its trimmed `online` reads
/// as the integer 1; its charge is named after the entry, is online, and
/// takes each reading from its own file, read as a decimal `i64`.
pub proof fn lemma_supply_reading(f: SupplyFiles)
    ensures
        sinking(f) <==> (f.kind is Some && (trim(f.kind->0@) == "USB"@ || trim(f.kind->0@)
            == "USB_PD"@ || trim(f.kind->0@) == "USB_PD_DRP"@ || trim(f.kind->0@) == "USB_C"@))
            && f.online is Some && parse_int(trim(f.online->0@), 10, i64::MIN as int, i64::MAX as int)
            == Ok::<int, IntErrorKind>(1),
        charge_of(f).supply == f.name@,
        charge_of(f).online,
        charge_of(f).voltage_now_uv == match f.voltage_now { Some(t) => match parse_int(trim(t@), 10, i64::MIN as int, i64::MAX as int) { Ok(v) => Some(v as i64), Err(_) => None::<i64> }, None => None::<i64> },
        charge_of(f).current_now_ua == match f.current_now { Some(t) => match parse_int(trim(t@), 10, i64::MIN as int, i64::MAX as int) { Ok(v) => Some(v as i64), Err(_) => None::<i64> }, None => None::<i64> },
        charge_of(f).voltage_max_uv == match f.voltage_max { Some(t) => match parse_int(trim(t@), 10, i64::MIN as int, i64::MAX as int) { Ok(v) => Some(v as i64), Err(_) => None::<i64> }, None => None::<i64> },
        charge_of(f).current_max_ua == match f.current_max { Some(t) => match parse_int(trim(t@), 10, i64::MIN as int, i64::MAX as int) { Ok(v) => Some(v as i64), Err(_) => None::<i64> }, None => None::<i64> },
{
    if f.online is Some {
        crate::numparse::lemma_parse_int_bounds(
            trim(f.online->0@),
            10,
            i64::MIN as int,
            i64::MAX as int,
        );
    }
}

/// The charge found is that of the first supply, in the order given, that
/// is a charging USB-C input; there is none exactly when no supply is one.
pub proof fn lemma_first_sinking(s: Seq<SupplyFiles>)
    ensures
        first_sinking(s) is None <==> forall|i: int| 0 <= i < s.len() ==> !sinking(#[trigger] s[i]),
        first_sinking(s) is Some ==> exists|j: int|
            0 <= j < s.len() && sinking(#[trigger] s[j]) && first_sinking(s) == Some(charge_of(s[j]))
                && forall|k: int| 0 <= k < j ==> !sinking(#[trigger] s[k]),
    decreases s.len(),
{
    if s.len() > 0 {
        lemma_first_sinking(s.drop_first());
        let r = s.drop_first();
        assert forall|i: int| 0 <= i < r.len() implies r[i] == s[i + 1] by {}
        if sinking(s[0]) {
            assert(sinking(s[0]) && first_sinking(s) == Some(charge_of(s[0])));
        } else if first_sinking(r) is Some {
            let j = choose|j: int|
                0 <= j < r.len() && sinking(#[trigger] r[j]) && first_sinking(r) == Some(charge_of(r[j]))
                    && forall|k: int| 0 <= k < j ==> !sinking(#[trigger] r[k]);
            assert(s[j + 1] == r[j]);
            assert forall|k: int| 0 <= k < j + 1 implies !sinking(#[trigger] s[k]) by {
                if k > 0 {
                    assert(s[k] == r[k - 1]);
                }
            }
        } else {
            assert forall|i: int| 0 <= i < s.len() implies !sinking(#[trigger] s[i]) by {
                if i > 0 {
                    assert(s[i] == r[i - 1]);
                }
            }
        }
    }
}

/// Whether a supply's `type` names a USB-C / USB-PD input.
pub fn is_usb_pd_supply(kind: &Option<String>) -> (r: bool)
    ensures
        r == usb_pd_type(*kind),
{
    match read_trim(kind) {
        Some(t) => str_eq(t.as_str(), "USB") || str_eq(t.as_str(), "USB_PD") || str_eq(
            t.as_str(),
            "USB_PD_DRP",
        ) || str_eq(t.as_str(), "USB_C"),
        None => false,
    }
}

/// What an integer attribute reads as, when it is an `i64`.
pub fn read_int(raw: &Option<String>) -> (r: Option<i64>)
    ensures
        r == int_attr(*raw),
{
    match read_trim(raw) {
        Some(t) => match parse_i64(t.as_str(), 10) {
            Ok(v) => Some(v),
            Err(_) => None,
        },
        None => None,
    }
}

/// The charge of the first supply that is a USB-C input and online.
pub fn find_for_sinking_port(supplies: &Vec<SupplyFiles>) -> (r: Option<LiveCharge>)
    ensures
        opt_view(r) == first_sinking(supplies@),
{
    let n: usize = supplies.len();
    let mut i: usize = 0;
    assert(supplies@.subrange(0, n as int) =~= supplies@);
    while i < n
        invariant
            n == supplies@.len(),
            i <= n,
            first_sinking(supplies@) == first_sinking(supplies@.subrange(i as int, n as int)),
        decreases n - i,
    {
        let f = &supplies[i];
        assert(supplies@.subrange(i as int, n as int)[0] == *f);
        assert(supplies@.subrange(i as int, n as int).drop_first() =~= supplies@.subrange(
            i + 1,
            n as int,
        ));
        if is_usb_pd_supply(&f.kind) {
            let online = read_int(&f.online);
            if online == Some(1i64) {
                return Some(
                    LiveCharge {
                        supply: f.name.clone(),
                        online: true,
                        voltage_now_uv: read_int(&f.voltage_now),
                        current_now_ua: read_int(&f.current_now),
                        voltage_max_uv: read_int(&f.voltage_max),
                        current_max_ua: read_int(&f.current_max),
                    },
                );
            }
        }
        i = i + 1;
    }
    None
}

} // verus!
