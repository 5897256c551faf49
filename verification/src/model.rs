//! What a snapshot of the USB-C ports holds, and the mathematical view of
//! each of its types (strings seen as sequences of characters).

use vstd::prelude::*;
use crate::numfmt::{decimal, push_decimal};
use crate::numparse::{IntErrorKind, lemma_decimal_reads_back, parse_int};
use crate::text::{push_str, str_eq};
use crate::vdo::{CableVdo, IdHeader};

verus! {

/// Every USB-C port found, sorted by name.
#[derive(Debug)]
pub struct Snapshot {
    pub ports: Vec<Port>,
}

/// One USB-C port (`/sys/class/typec/portN`).
#[derive(Debug)]
pub struct Port {
    /// The port's directory name, such as `port0`.
    pub name: String,
    pub data_role: Option<String>,
    pub power_role: Option<String>,
    pub power_operation_mode: Option<String>,
    pub usb_typec_revision: Option<String>,
    pub usb_pd_revision: Option<String>,
    pub usb_capability: Option<String>,
    /// What is plugged in, when anything is.
    pub partner: Option<Partner>,
    /// The cable, when the kernel sees one.
    pub cable: Option<Cable>,
    /// The charge coming in, for a port that sinks power.
    pub live: Option<LiveCharge>,
}

/// The device at the other end of a port.
#[derive(Debug)]
pub struct Partner {
    pub supports_usb_pd: Option<bool>,
    pub number_of_alternate_modes: Option<u32>,
    pub identity_id_header: Option<IdHeader>,
}

/// The cable between a port and its partner.
#[derive(Debug)]
pub struct Cable {
    /// `active` or `passive`.
    pub kind: Option<String>,
    pub plug_type: Option<String>,
    pub identity_id_header: Option<IdHeader>,
    pub cable_vdo: Option<CableVdo>,
}

/// What a USB power supply reports while it charges.
#[derive(Debug, Clone)]
pub struct LiveCharge {
    /// The power supply's name.
    pub supply: String,
    pub online: bool,
    pub voltage_now_uv: Option<i64>,
    pub current_now_ua: Option<i64>,
    pub voltage_max_uv: Option<i64>,
    pub current_max_ua: Option<i64>,
}

/// The view of a `Port`.
pub struct PortView {
    pub name: Seq<char>,
    pub data_role: Option<Seq<char>>,
    pub power_role: Option<Seq<char>>,
    pub power_operation_mode: Option<Seq<char>>,
    pub usb_typec_revision: Option<Seq<char>>,
    pub usb_pd_revision: Option<Seq<char>>,
    pub usb_capability: Option<Seq<char>>,
    pub partner: Option<PartnerView>,
    pub cable: Option<CableView>,
    pub live: Option<LiveChargeView>,
}

/// The view of a `Partner`.
pub struct PartnerView {
    pub supports_usb_pd: Option<bool>,
    pub number_of_alternate_modes: Option<u32>,
    pub identity_id_header: Option<IdHeader>,
}

/// The view of a `Cable`.
pub struct CableView {
    pub kind: Option<Seq<char>>,
    pub plug_type: Option<Seq<char>>,
    pub identity_id_header: Option<IdHeader>,
    pub cable_vdo: Option<CableVdo>,
}

/// The view of a `LiveCharge`.
pub struct LiveChargeView {
    pub supply: Seq<char>,
    pub online: bool,
    pub voltage_now_uv: Option<i64>,
    pub current_now_ua: Option<i64>,
    pub voltage_max_uv: Option<i64>,
    pub current_max_ua: Option<i64>,
}

impl View for Partner {
    type V = PartnerView;

    open spec fn view(&self) -> PartnerView {
        PartnerView {
            supports_usb_pd: self.supports_usb_pd,
            number_of_alternate_modes: self.number_of_alternate_modes,
            identity_id_header: self.identity_id_header,
        }
    }
}

impl View for Cable {
    type V = CableView;

    open spec fn view(&self) -> CableView {
        CableView {
            kind: self.kind.deep_view(),
            plug_type: self.plug_type.deep_view(),
            identity_id_header: self.identity_id_header,
            cable_vdo: self.cable_vdo,
        }
    }
}

impl View for LiveCharge {
    type V = LiveChargeView;

    open spec fn view(&self) -> LiveChargeView {
        LiveChargeView {
            supply: self.supply@,
            online: self.online,
            voltage_now_uv: self.voltage_now_uv,
            current_now_ua: self.current_now_ua,
            voltage_max_uv: self.voltage_max_uv,
            current_max_ua: self.current_max_ua,
        }
    }
}

/// The view of an optional value that has one.
pub open spec fn opt_view<T: View>(o: Option<T>) -> Option<T::V> {
    match o {
        Some(x) => Some(x@),
        None => None,
    }
}

impl View for Port {
    type V = PortView;

    open spec fn view(&self) -> PortView {
        PortView {
            name: self.name@,
            data_role: self.data_role.deep_view(),
            power_role: self.power_role.deep_view(),
            power_operation_mode: self.power_operation_mode.deep_view(),
            usb_typec_revision: self.usb_typec_revision.deep_view(),
            usb_pd_revision: self.usb_pd_revision.deep_view(),
            usb_capability: self.usb_capability.deep_view(),
            partner: opt_view(self.partner),
            cable: opt_view(self.cable),
            live: opt_view(self.live),
        }
    }
}

/// The views of `ports`, in order.
pub open spec fn ports_view(ports: Seq<Port>) -> Seq<PortView> {
    ports.map_values(|p: Port| p@)
}

impl View for Snapshot {
    type V = Seq<PortView>;

    open spec fn view(&self) -> Seq<PortView> {
        ports_view(self.ports@)
    }
}

impl LiveCharge {
    /// A copy of this charge.
    pub fn duplicate(&self) -> (r: LiveCharge)
        ensures
            r@ == self@,
    {
        LiveCharge {
            supply: self.supply.clone(),
            online: self.online,
            voltage_now_uv: self.voltage_now_uv,
            current_now_ua: self.current_now_ua,
            voltage_max_uv: self.voltage_max_uv,
            current_max_ua: self.current_max_ua,
        }
    }
}

/// The name of the port numbered `n`: `port<n>`.
pub open spec fn port_label(n: u32) -> Seq<char> {
    "port"@ + decimal(n as nat)
}

/// The ports of `s` named `name`, in order.
pub open spec fn ports_named(s: Seq<PortView>, name: Seq<char>) -> Seq<PortView>
    decreases s.len(),
{
    if s.len() == 0 {
        Seq::empty()
    } else if s.last().name == name {
        ports_named(s.drop_last(), name).push(s.last())
    } else {
        ports_named(s.drop_last(), name)
    }
}

/// The name of port `n` is `port` followed by the decimal digits of `n`:
/// what follows `port` reads back as `n`, so two port numbers never share a
/// name.
pub proof fn lemma_port_label(n: u32)
    ensures
        port_label(n).len() > 4,
        port_label(n).subrange(0, 4) == seq!['p', 'o', 'r', 't'],
        parse_int(port_label(n).subrange(4, port_label(n).len() as int), 10, 0, u32::MAX as int)
            == Ok::<int, IntErrorKind>(n as int),
        forall|m: u32| port_label(m) == port_label(n) ==> m == n,
{
    reveal_strlit("port");
    lemma_decimal_reads_back(n as nat, u32::MAX as int);
    let l = port_label(n);
    assert(l.subrange(0, 4) =~= seq!['p', 'o', 'r', 't']);
    assert(l.subrange(4, l.len() as int) =~= decimal(n as nat));
    assert forall|m: u32| port_label(m) == port_label(n) implies m == n by {
        lemma_decimal_reads_back(m as nat, u32::MAX as int);
        assert(port_label(m).subrange(4, port_label(m).len() as int) =~= decimal(m as nat));
    }
}

/// Keeping the ports named `name` is filtering them by name: the kept
/// ports all bear that name, every port of that name is kept, and they
/// keep their order.
pub proof fn lemma_ports_named_filters(s: Seq<PortView>, name: Seq<char>)
    ensures
        ports_named(s, name) == s.filter(|p: PortView| p.name == name),
        forall|i: int| 0 <= i < ports_named(s, name).len() ==> (#[trigger] ports_named(s, name)[i]).name == name,
        forall|i: int| 0 <= i < s.len() && (#[trigger] s[i]).name == name ==> ports_named(s, name).contains(s[i]),
    decreases s.len(),
{
    reveal_with_fuel(Seq::filter, 1);
    let pred = |p: PortView| p.name == name;
    if s.len() > 0 {
        lemma_ports_named_filters(s.drop_last(), name);
    }
    assert(ports_named(s, name) == s.filter(pred));
    assert forall|i: int| 0 <= i < ports_named(s, name).len() implies (#[trigger] ports_named(
        s,
        name,
    )[i]).name == name by {
        s.lemma_filter_pred(pred, i);
    }
    assert forall|i: int| 0 <= i < s.len() && (#[trigger] s[i]).name == name implies ports_named(
        s,
        name,
    ).contains(s[i]) by {
        s.lemma_filter_contains(pred, i);
    }
}

impl Snapshot {
    /// Keeps only the port numbered `port` (the one named `port<port>`).
    pub fn retain_port(&mut self, port: u32)
        ensures
            final(self)@ == ports_named(old(self)@, port_label(port)),
    {
        let mut label = String::new();
        push_str(&mut label, "port");
        push_decimal(&mut label, port as u64);
        let mut rest: Vec<Port> = Vec::new();
        std::mem::swap(&mut rest, &mut self.ports);
        let ghost all = rest@;
        let n: usize = rest.len();
        let mut kept: Vec<Port> = Vec::new();
        let mut k: usize = 0;
        assert(ports_view(all.subrange(0, 0)) =~= Seq::<PortView>::empty());
        while k < n
            invariant
                n == all.len(),
                k <= n,
                rest@ == all.subrange(k as int, n as int),
                label@ == port_label(port),
                ports_view(kept@) == ports_named(ports_view(all.subrange(0, k as int)), label@),
            decreases n - k,
        {
            let p = rest.remove(0);
            assert(p == all[k as int]);
            assert(ports_view(all.subrange(0, k + 1)).drop_last() =~= ports_view(
                all.subrange(0, k as int),
            ));
            let ghost before = kept@;
            if str_eq(p.name.as_str(), label.as_str()) {
                kept.push(p);
                assert(ports_view(kept@) =~= ports_view(before).push(p@));
            }
            k = k + 1;
            assert(rest@ =~= all.subrange(k as int, n as int));
        }
        assert(all.subrange(0, n as int) =~= all);
        self.ports = kept;
    }
}

} // verus!
