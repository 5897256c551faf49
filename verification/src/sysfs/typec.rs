//! Ports of the `typec` class: which directory entries are ports, and how a
//! port, its partner and its cable are read from their attribute files.

use vstd::prelude::*;
use crate::model::{Cable, Partner, Port, PortView, PartnerView, CableView, ports_view};
use crate::numparse::{parse_int, parse_u32};
use crate::sysfs::{active_choice, parse_active, read_trim, trimmed};
use crate::text::{chars_of, trim, lex_lt, lemma_lex_asymmetric, lemma_lex_total, lemma_lex_transitive, str_lt};
use crate::vdo::{
    IdHeader,
    CableVdo,
    cable_vdo_of,
    decode_cable_vdo,
    decode_id_header,
    id_header_of,
    parse_vdo_hex,
    vdo_hex_value,
};

verus! {

/// The attribute files of a port partner (`portN-partner/`).
pub struct PartnerFiles {
    pub supports_usb_power_delivery: Option<String>,
    pub number_of_alternate_modes: Option<String>,
    /// `identity/id_header`.
    pub identity_id_header: Option<String>,
}

/// The attribute files of a cable (`portN-cable/`).
pub struct CableFiles {
    /// `type`.
    pub kind: Option<String>,
    pub plug_type: Option<String>,
    /// `identity/id_header`.
    pub identity_id_header: Option<String>,
    /// `identity/product_type_vdo1`.
    pub identity_product_type_vdo1: Option<String>,
}

/// A directory entry of the `typec` class with the attribute files read
/// from it.
pub struct PortFiles {
    /// The entry's name.
    pub name: String,
    pub data_role: Option<String>,
    pub power_role: Option<String>,
    pub power_operation_mode: Option<String>,
    pub usb_typec_revision: Option<String>,
    pub usb_power_delivery_revision: Option<String>,
    pub usb_capability: Option<String>,
    /// `None` when the directory `<name>-partner` does not exist.
    pub partner: Option<PartnerFiles>,
    /// `None` when the directory `<name>-cable` does not exist.
    pub cable: Option<CableFiles>,
}

/// Whether `c` is an ASCII decimal digit.
pub open spec fn is_digit(c: char) -> bool {
    '0' <= c <= '9'
}

/// Whether `s` names a port: `port` followed by one or more ASCII digits
/// (not `portN-partner`, `portN-cable` or `portN.M`).
pub open spec fn port_name(s: Seq<char>) -> bool {
    &&& s.len() > 4
    &&& s.subrange(0, 4) == seq!['p', 'o', 'r', 't']
    &&& forall|i: int| 4 <= i < s.len() ==> is_digit(#[trigger] s[i])
}

/// What a yes/no attribute reads as: `yes` is true, anything else false.
pub open spec fn yes_no(raw: Option<String>) -> Option<bool> {
    match trimmed(raw) {
        Some(t) => Some(t == seq!['y', 'e', 's']),
        None => None,
    }
}

/// What a decimal attribute reads as, when it is a `u32`.
pub open spec fn u32_dec(raw: Option<String>) -> Option<u32> {
    match trimmed(raw) {
        Some(t) => match parse_int(t, 10, 0, u32::MAX as int) {
            Ok(v) => Some(v as u32),
            Err(_) => None,
        },
        None => None,
    }
}

/// What an `id_header` attribute reads as, when it holds a VDO.
pub open spec fn id_header_attr(raw: Option<String>) -> Option<IdHeader> {
    match trimmed(raw) {
        Some(t) => match vdo_hex_value(t) {
            Ok(v) => Some(id_header_of(v as u32)),
            Err(_) => None,
        },
        None => None,
    }
}

/// What a `product_type_vdo1` attribute of a cable reads as.
pub open spec fn cable_vdo_attr(raw: Option<String>) -> Option<CableVdo> {
    match trimmed(raw) {
        Some(t) => match vdo_hex_value(t) {
            Ok(v) => Some(cable_vdo_of(v as u32)),
            Err(_) => None,
        },
        None => None,
    }
}

/// The partner described by its attribute files, if it exists.
pub open spec fn partner_of(files: Option<PartnerFiles>) -> Option<PartnerView> {
    match files {
        Some(f) => Some(
            PartnerView {
                supports_usb_pd: yes_no(f.supports_usb_power_delivery),
                number_of_alternate_modes: u32_dec(f.number_of_alternate_modes),
                identity_id_header: id_header_attr(f.identity_id_header),
            },
        ),
        None => None,
    }
}

/// The cable described by its attribute files, if it exists.
pub open spec fn cable_of(files: Option<CableFiles>) -> Option<CableView> {
    match files {
        Some(f) => Some(
            CableView {
                kind: trimmed(f.kind),
                plug_type: trimmed(f.plug_type),
                identity_id_header: id_header_attr(f.identity_id_header),
                cable_vdo: cable_vdo_attr(f.identity_product_type_vdo1),
            },
        ),
        None => None,
    }
}

/// The active choice of a trimmed attribute.
pub open spec fn active_attr(raw: Option<String>) -> Option<Seq<char>> {
    match trimmed(raw) {
        Some(t) => Some(active_choice(t)),
        None => None,
    }
}

/// The port described by the attribute files of a `typec` entry.
pub open spec fn port_of(f: PortFiles) -> PortView {
    PortView {
        name: f.name@,
        data_role: active_attr(f.data_role),
        power_role: active_attr(f.power_role),
        power_operation_mode: active_attr(f.power_operation_mode),
        usb_typec_revision: trimmed(f.usb_typec_revision),
        usb_pd_revision: trimmed(f.usb_power_delivery_revision),
        usb_capability: trimmed(f.usb_capability),
        partner: partner_of(f.partner),
        cable: cable_of(f.cable),
        live: None,
    }
}

/// The decimal digits of a number are ASCII digits.
proof fn lemma_decimal_is_digits(n: nat)
    ensures
        forall|i: int| 0 <= i < crate::numfmt::decimal(n).len() ==> is_digit(
            #[trigger] crate::numfmt::decimal(n)[i],
        ),
    decreases n,
{
    let t = crate::numfmt::decimal(n);
    assert forall|k: int| 0 <= k < 10 implies is_digit(#[trigger] crate::numfmt::digit_chars()[k]) by {
        assert(crate::numfmt::digit_chars()[k] == seq!['0', '1', '2', '3', '4', '5', '6', '7', '8', '9', 'a', 'b', 'c', 'd', 'e', 'f'][k]);
    }
    if n >= 10 {
        lemma_decimal_is_digits(n / 10);
        let h = crate::numfmt::decimal(n / 10);
        assert forall|i: int| 0 <= i < t.len() implies is_digit(#[trigger] t[i]) by {
            if i < h.len() {
                assert(t[i] == h[i]);
            }
        }
    }
}

/// The name of every port number is a port name, so `--port N` can match
/// an entry that `enumerate` keeps; an entry whose name has anything but
/// digits after `port` (such as `port0-partner` or `port0.1`) is not one.
pub proof fn lemma_port_names(n: u32, s: Seq<char>)
    ensures
        port_name(crate::model::port_label(n)),
        port_name(s) ==> s.subrange(0, 4) == seq!['p', 'o', 'r', 't'] && s.len() > 4,
        (exists|i: int| 4 <= i < s.len() && !('0' <= #[trigger] s[i] <= '9')) ==> !port_name(s),
{
    reveal_strlit("port");
    crate::model::lemma_port_label(n);
    crate::numparse::lemma_decimal_reads_back(n as nat, u32::MAX as int);
    let l = crate::model::port_label(n);
    let d = crate::numfmt::decimal(n as nat);
    assert(l.subrange(4, l.len() as int) =~= d);
    assert forall|i: int| 4 <= i < l.len() implies is_digit(#[trigger] l[i]) by {
        assert(l[i] == d[i - 4]);
        lemma_decimal_is_digits(n as nat);
    }
}

/// Each field of a port is read from its own attribute file, whatever the
/// others hold: the name from the entry, the roles as the active choice of
/// their trimmed files, the revisions and the capability as their trimmed
/// files (`None` where a file could not be read), the partner and the cable
/// exactly when their directories exist, and no charge yet.
pub proof fn lemma_port_reads_its_own_files(f: PortFiles, g: PortFiles)
    ensures
        port_of(f).name == f.name@,
        port_of(f).data_role == match f.data_role { Some(t) => Some(active_choice(trim(t@))), None => None::<Seq<char>> },
        port_of(f).power_role == match f.power_role { Some(t) => Some(active_choice(trim(t@))), None => None::<Seq<char>> },
        port_of(f).power_operation_mode == match f.power_operation_mode { Some(t) => Some(active_choice(trim(t@))), None => None::<Seq<char>> },
        port_of(f).usb_typec_revision == match f.usb_typec_revision { Some(t) => Some(trim(t@)), None => None::<Seq<char>> },
        port_of(f).usb_pd_revision == match f.usb_power_delivery_revision { Some(t) => Some(trim(t@)), None => None::<Seq<char>> },
        port_of(f).usb_capability == match f.usb_capability { Some(t) => Some(trim(t@)), None => None::<Seq<char>> },
        port_of(f).partner is Some <==> f.partner is Some,
        port_of(f).cable is Some <==> f.cable is Some,
        port_of(f).live is None,
        f.name == g.name ==> port_of(f).name == port_of(g).name,
        f.data_role == g.data_role ==> port_of(f).data_role == port_of(g).data_role,
        f.power_role == g.power_role ==> port_of(f).power_role == port_of(g).power_role,
        f.power_operation_mode == g.power_operation_mode ==> port_of(f).power_operation_mode == port_of(g).power_operation_mode,
        f.usb_typec_revision == g.usb_typec_revision ==> port_of(f).usb_typec_revision == port_of(g).usb_typec_revision,
        f.usb_power_delivery_revision == g.usb_power_delivery_revision ==> port_of(f).usb_pd_revision == port_of(g).usb_pd_revision,
        f.usb_capability == g.usb_capability ==> port_of(f).usb_capability == port_of(g).usb_capability,
        f.partner == g.partner ==> port_of(f).partner == port_of(g).partner,
        f.cable == g.cable ==> port_of(f).cable == port_of(g).cable,
{
}

/// Each field of a partner is read from its own attribute file: USB PD
/// support is `true` exactly for `yes`, the number of alternate modes is
/// the file read as a decimal `u32`, the ID header is the file read as a
/// VDO.
pub proof fn lemma_partner_reads_its_own_files(f: PartnerFiles)
    ensures
        partner_of(Some(f)) matches Some(p) && p.supports_usb_pd == match f.supports_usb_power_delivery {
            Some(t) => Some(trim(t@) == seq!['y', 'e', 's']),
            None => None::<bool>,
        } && p.number_of_alternate_modes == match f.number_of_alternate_modes {
            Some(t) => match parse_int(trim(t@), 10, 0, u32::MAX as int) {
                Ok(v) => Some(v as u32),
                Err(_) => None::<u32>,
            },
            None => None::<u32>,
        } && p.identity_id_header == match f.identity_id_header {
            Some(t) => match vdo_hex_value(trim(t@)) {
                Ok(v) => Some(id_header_of(v as u32)),
                Err(_) => None::<IdHeader>,
            },
            None => None::<IdHeader>,
        },
        partner_of(None) is None,
{
}

/// Each field of a cable is read from its own attribute file: the kind from
/// `type`, the plug type from `plug_type`, trimmed; the ID header from
/// `identity/id_header` and the Cable VDO from `identity/product_type_vdo1`,
/// each read as a VDO.
pub proof fn lemma_cable_reads_its_own_files(f: CableFiles)
    ensures
        cable_of(Some(f)) matches Some(c) && c.kind == match f.kind { Some(t) => Some(trim(t@)), None => None::<Seq<char>> } && c.plug_type == match f.plug_type { Some(t) => Some(trim(t@)), None => None::<Seq<char>> }
            && c.identity_id_header == match f.identity_id_header {
            Some(t) => match vdo_hex_value(trim(t@)) {
                Ok(v) => Some(id_header_of(v as u32)),
                Err(_) => None::<IdHeader>,
            },
            None => None::<IdHeader>,
        } && c.cable_vdo == match f.identity_product_type_vdo1 {
            Some(t) => match vdo_hex_value(trim(t@)) {
                Ok(v) => Some(cable_vdo_of(v as u32)),
                Err(_) => None::<CableVdo>,
            },
            None => None::<CableVdo>,
        },
        cable_of(None) is None,
{
}

/// Whether `s` names a port: `port` followed by one or more ASCII digits.
pub fn is_port_name(s: &str) -> (r: bool)
    ensures
        r == port_name(s@),
{
    let v = chars_of(s);
    if v.len() <= 4 || v[0] != 'p' || v[1] != 'o' || v[2] != 'r' || v[3] != 't' {
        assert(v@.len() > 4 ==> v@.subrange(0, 4)[0] == v@[0] && v@.subrange(0, 4)[1] == v@[1]
            && v@.subrange(0, 4)[2] == v@[2] && v@.subrange(0, 4)[3] == v@[3]);
        return false;
    }
    assert(v@.subrange(0, 4) =~= seq!['p', 'o', 'r', 't']);
    let mut i: usize = 4;
    while i < v.len()
        invariant
            v@ == s@,
            4 <= i <= v@.len(),
            forall|k: int| 4 <= k < i ==> is_digit(#[trigger] v@[k]),
        decreases v@.len() - i,
    {
        if !('0' <= v[i] && v[i] <= '9') {
            return false;
        }
        i = i + 1;
    }
    true
}

/// What a yes/no attribute reads as: `yes` is true, anything else false.
pub fn read_yes_no(raw: &Option<String>) -> (r: Option<bool>)
    ensures
        r == yes_no(*raw),
{
    match read_trim(raw) {
        Some(t) => {
            let v = chars_of(t.as_str());
            let yes = v.len() == 3 && v[0] == 'y' && v[1] == 'e' && v[2] == 's';
            proof {
                if yes {
                    assert(v@ =~= seq!['y', 'e', 's']);
                }
                if v@ == seq!['y', 'e', 's'] {
                    assert(v@[0] == 'y' && v@[1] == 'e' && v@[2] == 's');
                }
            }
            Some(yes)
        },
        None => None,
    }
}

/// What a decimal attribute reads as, when it is a `u32`.
pub fn read_u32_dec(raw: &Option<String>) -> (r: Option<u32>)
    ensures
        r == u32_dec(*raw),
{
    match read_trim(raw) {
        Some(t) => match parse_u32(t.as_str(), 10) {
            Ok(v) => Some(v),
            Err(_) => None,
        },
        None => None,
    }
}

/// What an `id_header` attribute reads as, when it holds a VDO.
pub fn read_id_header(raw: &Option<String>) -> (r: Option<IdHeader>)
    ensures
        r == id_header_attr(*raw),
{
    let t = match read_trim(raw) {
        Some(t) => t,
        None => return None,
    };
    match parse_vdo_hex(t.as_str()) {
        Ok(v) => match decode_id_header(v) {
            Ok(h) => Some(h),
            Err(_) => None,
        },
        Err(_) => None,
    }
}

/// The partner described by its attribute files, if it exists.
pub fn read_partner(files: &Option<PartnerFiles>) -> (r: Option<Partner>)
    ensures
        crate::model::opt_view(r) == partner_of(*files),
{
    match files {
        None => None,
        Some(f) => Some(
            Partner {
                supports_usb_pd: read_yes_no(&f.supports_usb_power_delivery),
                number_of_alternate_modes: read_u32_dec(&f.number_of_alternate_modes),
                identity_id_header: read_id_header(&f.identity_id_header),
            },
        ),
    }
}

/// What a `product_type_vdo1` attribute of a cable reads as.
fn read_cable_vdo(raw: &Option<String>) -> (r: Option<CableVdo>)
    ensures
        r == cable_vdo_attr(*raw),
{
    let t = match read_trim(raw) {
        Some(t) => t,
        None => return None,
    };
    match parse_vdo_hex(t.as_str()) {
        Ok(v) => match decode_cable_vdo(v) {
            Ok(c) => Some(c),
            Err(_) => None,
        },
        Err(_) => None,
    }
}

/// The cable described by its attribute files, if it exists.
pub fn read_cable(files: &Option<CableFiles>) -> (r: Option<Cable>)
    ensures
        crate::model::opt_view(r) == cable_of(*files),
{
    match files {
        None => None,
        Some(f) => {
            let cable = Cable {
                kind: read_trim(&f.kind),
                plug_type: read_trim(&f.plug_type),
                identity_id_header: read_id_header(&f.identity_id_header),
                cable_vdo: read_cable_vdo(&f.identity_product_type_vdo1),
            };
            Some(cable)
        },
    }
}

/// The active choice of a trimmed attribute.
fn read_active(raw: &Option<String>) -> (r: Option<String>)
    ensures
        r.deep_view() == active_attr(*raw),
{
    match read_trim(raw) {
        Some(t) => Some(parse_active(t.as_str())),
        None => None,
    }
}

/// The port described by the attribute files of a `typec` entry.
pub fn read_port(f: &PortFiles) -> (r: Port)
    ensures
        r@ == port_of(*f),
{
    Port {
        name: f.name.clone(),
        data_role: read_active(&f.data_role),
        power_role: read_active(&f.power_role),
        power_operation_mode: read_active(&f.power_operation_mode),
        usb_typec_revision: read_trim(&f.usb_typec_revision),
        usb_pd_revision: read_trim(&f.usb_power_delivery_revision),
        usb_capability: read_trim(&f.usb_capability),
        partner: read_partner(&f.partner),
        cable: read_cable(&f.cable),
        live: None,
    }
}

/// Every port that `enumerate` gives is named `port<N>`, and none carries
/// a charge yet.
pub proof fn lemma_enumerate_only_ports(entries: Seq<PortFiles>)
    ensures
        forall|i: int|
            0 <= i < enumerate_ports(entries).len() ==> port_name(
                #[trigger] enumerate_ports(entries)[i].name,
            ) && enumerate_ports(entries)[i].live is None,
    decreases entries.len(),
{
    if entries.len() > 0 {
        lemma_enumerate_only_ports(entries.drop_last());
        let prev = enumerate_ports(entries.drop_last());
        if port_name(entries.last().name@) {
            let p = port_of(entries.last());
            let k = insert_pos(prev, p.name, 0);
            lemma_insert_pos(prev, p.name, 0);
            let t = enumerate_ports(entries);
            assert forall|i: int| 0 <= i < t.len() implies port_name(#[trigger] t[i].name)
                && t[i].live is None by {
                if i < k {
                    assert(t[i] == prev[i]);
                } else if i > k {
                    assert(t[i] == prev[i - 1]);
                }
            }
        }
    }
}

/// Where a port named `name` goes among the ports `s[from..]`: before the
/// first one whose name sorts after `name`, so after every one of the same
/// name.
pub open spec fn insert_pos(s: Seq<PortView>, name: Seq<char>, from: int) -> int
    decreases s.len() - from,
{
    if from >= s.len() {
        s.len() as int
    } else if lex_lt(name, s[from].name) {
        from
    } else {
        insert_pos(s, name, from + 1)
    }
}

/// `p` inserted among the ports `s` by name.
pub open spec fn insert_by_name(s: Seq<PortView>, p: PortView) -> Seq<PortView> {
    s.insert(insert_pos(s, p.name, 0), p)
}

/// The ports among the `typec` entries, in the order of the entries.
pub open spec fn port_entries(entries: Seq<PortFiles>) -> Seq<PortView>
    decreases entries.len(),
{
    if entries.len() == 0 {
        Seq::empty()
    } else if port_name(entries.last().name@) {
        port_entries(entries.drop_last()).push(port_of(entries.last()))
    } else {
        port_entries(entries.drop_last())
    }
}

/// The ports among the `typec` entries, sorted by name; ports of the same
/// name keep the order of the entries (a stable sort).
pub open spec fn enumerate_ports(entries: Seq<PortFiles>) -> Seq<PortView>
    decreases entries.len(),
{
    if entries.len() == 0 {
        Seq::empty()
    } else if port_name(entries.last().name@) {
        insert_by_name(enumerate_ports(entries.drop_last()), port_of(entries.last()))
    } else {
        enumerate_ports(entries.drop_last())
    }
}

/// Whether the ports `s` are sorted by name.
pub open spec fn sorted_by_name(s: Seq<PortView>) -> bool {
    forall|i: int, j: int| 0 <= i < j < s.len() ==> !lex_lt(#[trigger] s[j].name, #[trigger] s[i].name)
}

proof fn lemma_insert_pos(s: Seq<PortView>, name: Seq<char>, from: int)
    requires
        0 <= from <= s.len(),
    ensures
        from <= insert_pos(s, name, from) <= s.len(),
        forall|i: int| from <= i < insert_pos(s, name, from) ==> !lex_lt(name, #[trigger] s[i].name),
        insert_pos(s, name, from) < s.len() ==> lex_lt(name, s[insert_pos(s, name, from)].name),
    decreases s.len() - from,
{
    if from < s.len() && !lex_lt(name, s[from].name) {
        lemma_insert_pos(s, name, from + 1);
    }
}

/// Inserting a port by name into ports sorted by name leaves them sorted.
proof fn lemma_insert_keeps_sorted(s: Seq<PortView>, p: PortView)
    requires
        sorted_by_name(s),
    ensures
        sorted_by_name(insert_by_name(s, p)),
{
    let k = insert_pos(s, p.name, 0);
    lemma_insert_pos(s, p.name, 0);
    let t = insert_by_name(s, p);
    assert forall|i: int, j: int| 0 <= i < j < t.len() implies !lex_lt(
        #[trigger] t[j].name,
        #[trigger] t[i].name,
    ) by {
        if j < k {
        } else if j == k {
            assert(t[i] == s[i]);
        } else if i < k {
            assert(t[i] == s[i] && t[j] == s[j - 1]);
        } else if i == k {
            assert(t[j] == s[j - 1]);
            lemma_lex_asymmetric(p.name, s[k].name);
            if j - 1 > k {
                lemma_lex_total(s[j - 1].name, s[k].name);
                if lex_lt(s[k].name, s[j - 1].name) {
                    lemma_lex_transitive(p.name, s[k].name, s[j - 1].name);
                }
                lemma_lex_asymmetric(p.name, s[j - 1].name);
            }
        } else {
            assert(t[i] == s[i - 1] && t[j] == s[j - 1]);
        }
    }
}

/// The ports that `enumerate` gives are sorted by name.
pub proof fn lemma_enumerate_sorted(entries: Seq<PortFiles>)
    ensures
        sorted_by_name(enumerate_ports(entries)),
    decreases entries.len(),
{
    if entries.len() > 0 {
        lemma_enumerate_sorted(entries.drop_last());
        if port_name(entries.last().name@) {
            lemma_insert_keeps_sorted(
                enumerate_ports(entries.drop_last()),
                port_of(entries.last()),
            );
        }
    }
}

/// The ports that `enumerate` gives are exactly the port entries, each
/// once: it reorders them and neither drops nor adds one.
pub proof fn lemma_enumerate_permutes(entries: Seq<PortFiles>)
    ensures
        enumerate_ports(entries).to_multiset() == port_entries(entries).to_multiset(),
    decreases entries.len(),
{
    broadcast use vstd::seq_lib::group_to_multiset_ensures;

    if entries.len() > 0 {
        lemma_enumerate_permutes(entries.drop_last());
        if port_name(entries.last().name@) {
            let prev = enumerate_ports(entries.drop_last());
            let p = port_of(entries.last());
            lemma_insert_pos(prev, p.name, 0);
            vstd::seq_lib::to_multiset_insert(prev, insert_pos(prev, p.name, 0), p);
        }
    }
}

/// Where a port named `name` goes among `ports`, sorted by name.
fn insertion_point(ports: &Vec<Port>, name: &String) -> (r: usize)
    ensures
        r == insert_pos(ports_view(ports@), name@, 0),
{
    let ghost s = ports_view(ports@);
    let mut i: usize = 0;
    while i < ports.len() && !str_lt(name.as_str(), ports[i].name.as_str())
        invariant
            s == ports_view(ports@),
            i <= ports@.len(),
            insert_pos(s, name@, 0) == insert_pos(s, name@, i as int),
        decreases ports@.len() - i,
    {
        i = i + 1;
    }
    i
}

/// The ports among the entries of the `typec` class, read from their
/// attribute files and sorted by name.
pub fn enumerate(entries: &Vec<PortFiles>) -> (r: Vec<Port>)
    ensures
        ports_view(r@) == enumerate_ports(entries@),
{
    let mut ports: Vec<Port> = Vec::new();
    let mut i: usize = 0;
    assert(ports_view(ports@) =~= enumerate_ports(entries@.subrange(0, 0)));
    while i < entries.len()
        invariant
            i <= entries@.len(),
            ports_view(ports@) == enumerate_ports(entries@.subrange(0, i as int)),
        decreases entries@.len() - i,
    {
        let ghost before = entries@.subrange(0, i as int);
        assert(entries@.subrange(0, i + 1).drop_last() =~= before);
        if is_port_name(entries[i].name.as_str()) {
            let p = read_port(&entries[i]);
            let pos = insertion_point(&ports, &p.name);
            proof {
                lemma_insert_pos(ports_view(ports@), p@.name, 0);
            }
            let ghost old_ports = ports@;
            ports.insert(pos, p);
            assert(ports_view(ports@) =~= ports_view(old_ports).insert(pos as int, p@));
        }
        i = i + 1;
    }
    assert(entries@.subrange(0, i as int) =~= entries@);
    ports
}

} // verus!
