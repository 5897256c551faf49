//! The snapshot as plain text, one block of lines per port.

use vstd::prelude::*;
use crate::model::{
    Cable,
    CableView,
    LiveCharge,
    LiveChargeView,
    Partner,
    PartnerView,
    Port,
    PortView,
    Snapshot,
};
use crate::numfmt::{decimal, hex4, push_decimal, push_hex4};
use crate::text::push_str;
use crate::vdo::{CableCurrent, CableSpeed, CableVdo, IdHeader};

verus! {

/// The figures of a charge, written with their decimals: the power in watts
/// (`{:.1}` of volts times amps), the voltage in volts (`{:.2}`) and the
/// current in amps (`{:.3}`). They take floating point to compute, so the
/// caller supplies them; only the figures whose readings the charge has
/// are shown.
pub struct ChargeFigures {
    pub watts: String,
    pub volts: String,
    pub amps: String,
}

/// The view of `ChargeFigures`.
pub struct ChargeFiguresView {
    pub watts: Seq<char>,
    pub volts: Seq<char>,
    pub amps: Seq<char>,
}

impl View for ChargeFigures {
    type V = ChargeFiguresView;

    open spec fn view(&self) -> ChargeFiguresView {
        ChargeFiguresView { watts: self.watts@, volts: self.volts@, amps: self.amps@ }
    }
}

/// A text, or a dash where there is none.
pub open spec fn or_dash(t: Option<Seq<char>>) -> Seq<char> {
    match t {
        Some(s) => s,
        None => "—"@,
    }
}

/// The line of a charge.
pub open spec fn live_text(l: LiveChargeView, f: ChargeFiguresView) -> Seq<char> {
    let w = if l.voltage_now_uv is Some && l.current_now_ua is Some {
        f.watts + " W"@
    } else {
        "—"@
    };
    let v = if l.voltage_now_uv is Some {
        f.volts + " V"@
    } else {
        "— V"@
    };
    let i = if l.current_now_ua is Some {
        f.amps + " A"@
    } else {
        "— A"@
    };
    "  charging:   "@ + w + "  ("@ + v + ", "@ + i + ")\n"@
}

/// The lines of a partner.
pub open spec fn partner_text(p: PartnerView) -> Seq<char> {
    let pd = match p.supports_usb_pd {
        Some(true) => "yes"@,
        Some(false) => "no"@,
        None => "—"@,
    };
    let alt = match p.number_of_alternate_modes {
        Some(n) => decimal(n as nat),
        None => "—"@,
    };
    let vid = match p.identity_id_header {
        Some(h) => "              VID=0x"@ + hex4(h.usb_vid) + "\n"@,
        None => Seq::empty(),
    };
    "  partner:    PD="@ + pd + ", altmodes="@ + alt + "\n"@ + vid
}

/// The name of a cable speed (empty for an unknown one).
pub open spec fn speed_name(s: CableSpeed) -> Seq<char> {
    match s {
        CableSpeed::Usb20 => "USB 2.0"@,
        CableSpeed::Usb32Gen1 => "USB 3.2 Gen 1 (5 Gbps)"@,
        CableSpeed::Usb32Gen2 => "USB 3.2 Gen 2 (10 Gbps)"@,
        CableSpeed::Usb4 => "USB4 (≥20 Gbps)"@,
        CableSpeed::Unknown(_) => Seq::empty(),
    }
}

/// The name of a cable current (empty for an unknown one).
pub open spec fn current_name(c: CableCurrent) -> Seq<char> {
    match c {
        CableCurrent::A3 => "3 A (≤60 W @ 20 V)"@,
        CableCurrent::A5 => "5 A (≤100 W @ 20 V / ≤240 W @ 48 V EPR)"@,
        CableCurrent::Reserved => "reserved"@,
        CableCurrent::Unknown(_) => Seq::empty(),
    }
}

/// The speed shown for a cable: its name, or a dash without a VDO.
pub open spec fn speed_part(v: Option<CableVdo>) -> Seq<char> {
    match v {
        Some(v) => speed_name(v.speed),
        None => "—"@,
    }
}

/// The current shown for a cable: its name, or a dash without a VDO.
pub open spec fn current_part(v: Option<CableVdo>) -> Seq<char> {
    match v {
        Some(v) => current_name(v.max_current),
        None => "—"@,
    }
}

/// The line of a cable whose VDO leaves a field unknown: `what` names the
/// field, `b` is its value.
pub open spec fn unknown_cable_text(kind: Seq<char>, what: Seq<char>, b: u8) -> Seq<char> {
    "  cable:      "@ + kind + what + decimal(b as nat) + ")\n"@
}

/// The line of the cable's vendor, when it has an ID header.
pub open spec fn cable_vid_text(h: Option<IdHeader>) -> Seq<char> {
    match h {
        Some(h) => "              cable VID=0x"@ + hex4(h.usb_vid) + "\n"@,
        None => Seq::empty(),
    }
}

/// The lines of a cable whose speed and current are known (or absent).
pub open spec fn known_cable_text(c: CableView) -> Seq<char> {
    "  cable:      "@ + or_dash(c.kind) + ", "@ + speed_part(c.cable_vdo) + ", "@ + current_part(
        c.cable_vdo,
    ) + "\n"@ + cable_vid_text(c.identity_id_header)
}

/// The lines of a cable. A speed or current that the VDO leaves unknown
/// is shown alone, speed first.
pub open spec fn cable_text(c: CableView) -> Seq<char> {
    match c.cable_vdo {
        Some(v) => match (v.speed, v.max_current) {
            (CableSpeed::Unknown(b), _) => unknown_cable_text(or_dash(c.kind), ", speed=unknown("@, b),
            (_, CableCurrent::Unknown(b)) => unknown_cable_text(
                or_dash(c.kind),
                ", current=unknown("@,
                b,
            ),
            _ => known_cable_text(c),
        },
        None => known_cable_text(c),
    }
}

/// The line of a port's roles.
pub open spec fn role_text(p: PortView) -> Seq<char> {
    "  role:       "@ + or_dash(p.power_role) + " / "@ + or_dash(p.data_role) + "\n"@
}

/// The line of a port's USB PD revision, when it has one.
pub open spec fn rev_text(p: PortView) -> Seq<char> {
    match p.usb_pd_revision {
        Some(r) => "  pd rev:     "@ + r + "\n"@,
        None => Seq::empty(),
    }
}

/// The lines of a port's partner, when it has one.
pub open spec fn partner_part(p: PortView) -> Seq<char> {
    match p.partner {
        Some(q) => partner_text(q),
        None => Seq::empty(),
    }
}

/// The lines of a port's cable, or a line that there is none.
pub open spec fn cable_part(p: PortView) -> Seq<char> {
    match p.cable {
        Some(c) => cable_text(c),
        None => "  cable:      (no e-marker / not detected)\n"@,
    }
}

/// The line of a port's charge, when it has one.
pub open spec fn live_part(p: PortView, f: ChargeFiguresView) -> Seq<char> {
    match p.live {
        Some(l) => live_text(l, f),
        None => Seq::empty(),
    }
}

/// The lines of a port that has a partner.
pub open spec fn connected_text(p: PortView, f: ChargeFiguresView) -> Seq<char> {
    role_text(p) + rev_text(p) + partner_part(p) + cable_part(p) + live_part(p, f)
}

/// The lines of a port; `f` are the figures of its charge.
pub open spec fn port_text(p: PortView, f: ChargeFiguresView) -> Seq<char> {
    "["@ + p.name + "]\n"@ + if p.partner is None {
        "  (nothing connected)\n"@
    } else {
        connected_text(p, f)
    }
}

/// The blocks of the first `n` ports, each followed by an empty line.
pub open spec fn ports_text(ps: Seq<PortView>, fs: Seq<ChargeFiguresView>, n: nat) -> Seq<char>
    decreases n,
{
    if n == 0 {
        Seq::empty()
    } else {
        ports_text(ps, fs, (n - 1) as nat) + port_text(ps[n - 1], fs[n - 1]) + "\n"@
    }
}

/// The whole text of a snapshot whose ports are `ps`, with `fs` the figures
/// of their charges, port by port.
pub open spec fn snapshot_text(ps: Seq<PortView>, fs: Seq<ChargeFiguresView>) -> Seq<char> {
    if ps.len() == 0 {
        "No USB-C ports found.\n"@
    } else {
        ports_text(ps, fs, ps.len())
    }
}

/// The charging line shows the figures that the charge has readings for:
/// power only with both voltage and current, each followed by its unit, a
/// dash for each missing one.
pub proof fn lemma_charging_line(l: LiveChargeView, f: ChargeFiguresView)
    ensures
        l.voltage_now_uv is Some && l.current_now_ua is Some ==> live_text(l, f)
            == "  charging:   "@ + f.watts + " W  ("@ + f.volts + " V, "@ + f.amps + " A)\n"@,
        l.voltage_now_uv is Some && l.current_now_ua is None ==> live_text(l, f)
            == "  charging:   —  ("@ + f.volts + " V, — A)\n"@,
        l.voltage_now_uv is None && l.current_now_ua is Some ==> live_text(l, f)
            == "  charging:   —  (— V, "@ + f.amps + " A)\n"@,
        l.voltage_now_uv is None && l.current_now_ua is None ==> live_text(l, f)
            == "  charging:   —  (— V, — A)\n"@,
{
    reveal_strlit("  charging:   ");
    reveal_strlit(" W");
    reveal_strlit("—");
    reveal_strlit("  (");
    reveal_strlit(" V");
    reveal_strlit("— V");
    reveal_strlit(", ");
    reveal_strlit(" A");
    reveal_strlit("— A");
    reveal_strlit(")\n");
    reveal_strlit(" W  (");
    reveal_strlit(" V, ");
    reveal_strlit(" A)\n");
    reveal_strlit("  charging:   —  (");
    reveal_strlit(" V, — A)\n");
    reveal_strlit("  charging:   —  (— V, ");
    reveal_strlit("  charging:   —  (— V, — A)\n");
    if l.voltage_now_uv is Some && l.current_now_ua is Some {
        assert(live_text(l, f) =~= "  charging:   "@ + f.watts + " W  ("@ + f.volts + " V, "@
            + f.amps + " A)\n"@);
    } else if l.voltage_now_uv is Some {
        assert(live_text(l, f) =~= "  charging:   —  ("@ + f.volts + " V, — A)\n"@);
    } else if l.current_now_ua is Some {
        assert(live_text(l, f) =~= "  charging:   —  (— V, "@ + f.amps + " A)\n"@);
    } else {
        assert(live_text(l, f) =~= "  charging:   —  (— V, — A)\n"@);
    }
}

/// The cable line: a speed that the VDO leaves unknown is shown alone with
/// its value, then an unknown current likewise; otherwise the line gives
/// the kind, the speed and the current by name (dashes without a VDO), and
/// the cable's vendor ID in four hex digits follows when it has an ID
/// header.
pub proof fn lemma_cable_lines(c: CableView)
    ensures
        c.cable_vdo is Some && c.cable_vdo->0.speed is Unknown ==> cable_text(c)
            == "  cable:      "@ + or_dash(c.kind) + ", speed=unknown("@ + decimal(c.cable_vdo->0.speed->Unknown_0 as nat)
            + ")\n"@,
        c.cable_vdo is Some && !(c.cable_vdo->0.speed is Unknown) && c.cable_vdo->0.max_current is Unknown
            ==> cable_text(c) == "  cable:      "@ + or_dash(c.kind) + ", current=unknown("@
            + decimal(c.cable_vdo->0.max_current->Unknown_0 as nat) + ")\n"@,
        c.cable_vdo is None ==> cable_text(c) == "  cable:      "@ + or_dash(c.kind)
            + ", —, —\n"@ + cable_vid_text(c.identity_id_header),
        c.cable_vdo is Some && c.cable_vdo->0.speed == CableSpeed::Usb20 && !(c.cable_vdo->0.max_current is Unknown) ==> ("  cable:      "@ + or_dash(c.kind) + ", USB 2.0, "@).is_prefix_of(cable_text(c)),
        c.cable_vdo is Some && c.cable_vdo->0.speed == CableSpeed::Usb32Gen1 && !(c.cable_vdo->0.max_current is Unknown) ==> ("  cable:      "@ + or_dash(c.kind) + ", USB 3.2 Gen 1 (5 Gbps), "@).is_prefix_of(cable_text(c)),
        c.cable_vdo is Some && c.cable_vdo->0.speed == CableSpeed::Usb32Gen2 && !(c.cable_vdo->0.max_current is Unknown) ==> ("  cable:      "@ + or_dash(c.kind) + ", USB 3.2 Gen 2 (10 Gbps), "@).is_prefix_of(cable_text(c)),
        c.cable_vdo is Some && c.cable_vdo->0.speed == CableSpeed::Usb4 && !(c.cable_vdo->0.max_current is Unknown) ==> ("  cable:      "@ + or_dash(c.kind) + ", USB4 (≥20 Gbps), "@).is_prefix_of(cable_text(c)),
        c.cable_vdo is Some && !(c.cable_vdo->0.speed is Unknown) && c.cable_vdo->0.max_current == CableCurrent::A3 ==> cable_text(c) == "  cable:      "@ + or_dash(c.kind) + ", "@ + speed_name(c.cable_vdo->0.speed) + ", 3 A (≤60 W @ 20 V)\n"@ + cable_vid_text(c.identity_id_header),
        c.cable_vdo is Some && !(c.cable_vdo->0.speed is Unknown) && c.cable_vdo->0.max_current == CableCurrent::A5 ==> cable_text(c) == "  cable:      "@ + or_dash(c.kind) + ", "@ + speed_name(c.cable_vdo->0.speed) + ", 5 A (≤100 W @ 20 V / ≤240 W @ 48 V EPR)\n"@ + cable_vid_text(c.identity_id_header),
        c.cable_vdo is Some && !(c.cable_vdo->0.speed is Unknown) && c.cable_vdo->0.max_current == CableCurrent::Reserved ==> cable_text(c) == "  cable:      "@ + or_dash(c.kind) + ", "@ + speed_name(c.cable_vdo->0.speed) + ", reserved\n"@ + cable_vid_text(c.identity_id_header),
        cable_vid_text(None) == Seq::<char>::empty(),
        forall|h: IdHeader| cable_vid_text(Some(h)) == "              cable VID=0x"@ + hex4(h.usb_vid) + "\n"@,
{
    reveal_strlit("  cable:      ");
    reveal_strlit(", ");
    reveal_strlit("\n");
    reveal_strlit("—");
    reveal_strlit(", —, —\n");
    reveal_strlit(", speed=unknown(");
    reveal_strlit(", current=unknown(");
    reveal_strlit(")\n");
    reveal_strlit("              cable VID=0x");
    reveal_strlit("USB 2.0");
    reveal_strlit(", USB 2.0, ");
    reveal_strlit("USB 3.2 Gen 1 (5 Gbps)");
    reveal_strlit(", USB 3.2 Gen 1 (5 Gbps), ");
    reveal_strlit("USB 3.2 Gen 2 (10 Gbps)");
    reveal_strlit(", USB 3.2 Gen 2 (10 Gbps), ");
    reveal_strlit("USB4 (≥20 Gbps)");
    reveal_strlit(", USB4 (≥20 Gbps), ");
    reveal_strlit("3 A (≤60 W @ 20 V)");
    reveal_strlit(", 3 A (≤60 W @ 20 V)\n");
    reveal_strlit("5 A (≤100 W @ 20 V / ≤240 W @ 48 V EPR)");
    reveal_strlit(", 5 A (≤100 W @ 20 V / ≤240 W @ 48 V EPR)\n");
    reveal_strlit("reserved");
    reveal_strlit(", reserved\n");
    let kind = or_dash(c.kind);
    match c.cable_vdo {
        None => {
            assert(cable_text(c) =~= "  cable:      "@ + kind + ", —, —\n"@ + cable_vid_text(
                c.identity_id_header,
            ));
        },
        Some(v) => {
            if !(v.speed is Unknown) && !(v.max_current is Unknown) {
                let t = cable_text(c);
                let pre = "  cable:      "@ + kind + ", "@;
                assert(t =~= pre + speed_name(v.speed) + ", "@ + current_name(v.max_current)
                    + "\n"@ + cable_vid_text(c.identity_id_header));
                let w = pre + speed_name(v.speed) + ", "@;
                assert(t.subrange(0, w.len() as int) =~= w);
                if v.speed == CableSpeed::Usb20 {
                    assert(w =~= "  cable:      "@ + kind + ", USB 2.0, "@);
                }
                if v.speed == CableSpeed::Usb32Gen1 {
                    assert(w =~= "  cable:      "@ + kind + ", USB 3.2 Gen 1 (5 Gbps), "@);
                }
                if v.speed == CableSpeed::Usb32Gen2 {
                    assert(w =~= "  cable:      "@ + kind + ", USB 3.2 Gen 2 (10 Gbps), "@);
                }
                if v.speed == CableSpeed::Usb4 {
                    assert(w =~= "  cable:      "@ + kind + ", USB4 (≥20 Gbps), "@);
                }
                if v.max_current == CableCurrent::A3 {
                    assert(t =~= "  cable:      "@ + kind + ", "@ + speed_name(v.speed) + ", 3 A (≤60 W @ 20 V)\n"@ + cable_vid_text(c.identity_id_header));
                }
                if v.max_current == CableCurrent::A5 {
                    assert(t =~= "  cable:      "@ + kind + ", "@ + speed_name(v.speed) + ", 5 A (≤100 W @ 20 V / ≤240 W @ 48 V EPR)\n"@ + cable_vid_text(c.identity_id_header));
                }
                if v.max_current == CableCurrent::Reserved {
                    assert(t =~= "  cable:      "@ + kind + ", "@ + speed_name(v.speed) + ", reserved\n"@ + cable_vid_text(c.identity_id_header));
                }
            }
        },
    }
}

/// The block of a port starts with its name in brackets. Without a partner
/// it says only that nothing is connected; with one, its first line gives
/// the power role, then the data role (a dash for a missing one), and the
/// next the USB PD revision when there is one.
pub proof fn lemma_port_block(p: PortView, f: ChargeFiguresView)
    ensures
        ("["@ + p.name + "]\n"@).is_prefix_of(port_text(p, f)),
        p.partner is None ==> port_text(p, f) == "["@ + p.name + "]\n  (nothing connected)\n"@,
        p.partner is Some ==> ("["@ + p.name + "]\n  role:       "@ + or_dash(p.power_role)
            + " / "@ + or_dash(p.data_role) + "\n"@).is_prefix_of(port_text(p, f)),
        p.partner is Some && p.usb_pd_revision is Some ==> ("["@ + p.name
            + "]\n  role:       "@ + or_dash(p.power_role) + " / "@ + or_dash(p.data_role)
            + "\n  pd rev:     "@ + p.usb_pd_revision->0 + "\n"@).is_prefix_of(port_text(p, f)),
        or_dash(None) == "—"@,
        forall|t: Seq<char>| or_dash(Some(t)) == t,
{
    reveal_strlit("[");
    reveal_strlit("]\n");
    reveal_strlit("  (nothing connected)\n");
    reveal_strlit("]\n  (nothing connected)\n");
    reveal_strlit("  role:       ");
    reveal_strlit("]\n  role:       ");
    reveal_strlit(" / ");
    reveal_strlit("\n");
    reveal_strlit("  pd rev:     ");
    reveal_strlit("\n  pd rev:     ");
    let head = "["@ + p.name + "]\n"@;
    let t = port_text(p, f);
    assert(t.subrange(0, head.len() as int) =~= head);
    if p.partner is None {
        assert(t =~= "["@ + p.name + "]\n  (nothing connected)\n"@);
    } else {
        let role = "["@ + p.name + "]\n  role:       "@ + or_dash(p.power_role) + " / "@ + or_dash(
            p.data_role,
        ) + "\n"@;
        assert(t =~= head + (role_text(p) + rev_text(p) + partner_part(p) + cable_part(p)
            + live_part(p, f)));
        assert(role =~= head + role_text(p));
        assert(t.subrange(0, role.len() as int) =~= role);
        if p.usb_pd_revision is Some {
            let rev = "["@ + p.name + "]\n  role:       "@ + or_dash(p.power_role) + " / "@
                + or_dash(p.data_role) + "\n  pd rev:     "@ + p.usb_pd_revision->0 + "\n"@;
            assert(rev =~= head + role_text(p) + rev_text(p));
            assert(t.subrange(0, rev.len() as int) =~= rev);
        }
    }
}

/// The partner's lines: after the USB PD word come the number of
/// alternate modes in decimal (a dash when unknown) and, when the partner
/// has an ID header, a line with its vendor ID in four hex digits.
pub proof fn lemma_partner_lines(p: PartnerView)
    ensures
        partner_text(p) == "  partner:    PD="@ + match p.supports_usb_pd {
            Some(true) => "yes"@,
            Some(false) => "no"@,
            None => "—"@,
        } + ", altmodes="@ + match p.number_of_alternate_modes {
            Some(n) => decimal(n as nat),
            None => "—"@,
        } + "\n"@ + match p.identity_id_header {
            Some(h) => "              VID=0x"@ + hex4(h.usb_vid) + "\n"@,
            None => Seq::<char>::empty(),
        },
{
}

/// The partner line says whether the partner speaks USB PD: after
/// `  partner:    PD=` it reads `yes` exactly for `Some(true)`, `no` exactly
/// for `Some(false)` and a dash for `None`, each followed by a comma; the
/// three texts differ.
pub proof fn lemma_partner_pd_word(p: PartnerView)
    ensures
        partner_text(p).len() > 20,
        partner_text(p).subrange(0, 17) == seq![' ', ' ', 'p', 'a', 'r', 't', 'n', 'e', 'r', ':', ' ', ' ', ' ', ' ', 'P', 'D', '='],
        p.supports_usb_pd == Some(true) ==> partner_text(p).subrange(17, 21) == seq!['y', 'e', 's', ','],
        p.supports_usb_pd == Some(false) ==> partner_text(p).subrange(17, 20) == seq!['n', 'o', ','],
        p.supports_usb_pd is None ==> partner_text(p).subrange(17, 19) == seq!['—', ','],
{
    reveal_strlit("  partner:    PD=");
    reveal_strlit("yes");
    reveal_strlit("no");
    reveal_strlit("—");
    reveal_strlit(", altmodes=");
    let t = partner_text(p);
    assert(t.subrange(0, 17) =~= seq![' ', ' ', 'p', 'a', 'r', 't', 'n', 'e', 'r', ':', ' ', ' ', ' ', ' ', 'P', 'D', '=']);
    if p.supports_usb_pd == Some(true) {
        assert(t.subrange(17, 21) =~= seq!['y', 'e', 's', ',']);
    } else if p.supports_usb_pd == Some(false) {
        assert(t.subrange(17, 20) =~= seq!['n', 'o', ',']);
    } else {
        assert(t.subrange(17, 19) =~= seq!['—', ',']);
    }
}

/// A snapshot without ports is one line saying so; one with a single port
/// is that port's block and an empty line.
pub proof fn lemma_text_of_small_snapshots(p: PortView, f: ChargeFiguresView, fs: Seq<ChargeFiguresView>)
    ensures
        snapshot_text(Seq::empty(), fs) == "No USB-C ports found.\n"@,
        snapshot_text(seq![p], seq![f]) == port_text(p, f) + "\n"@,
{
    assert(ports_text(seq![p], seq![f], 0) =~= Seq::<char>::empty());
    assert(Seq::<char>::empty() + port_text(p, f) + "\n"@ =~= port_text(p, f) + "\n"@);
}

/// The text of the first `m` ports does not depend on what follows them.
proof fn lemma_ports_text_prefix(
    ps: Seq<PortView>,
    fs: Seq<ChargeFiguresView>,
    qs: Seq<PortView>,
    gs: Seq<ChargeFiguresView>,
    m: nat,
)
    requires
        m <= ps.len(),
        m <= fs.len(),
    ensures
        ports_text(ps + qs, fs + gs, m) == ports_text(ps, fs, m),
    decreases m,
{
    if m > 0 {
        lemma_ports_text_prefix(ps, fs, qs, gs, (m - 1) as nat);
        assert((ps + qs)[m - 1] == ps[m - 1]);
        assert((fs + gs)[m - 1] == fs[m - 1]);
    }
}

/// The text of ports followed by more ports is the text of the first ones
/// followed by the text of the first `k` of the others.
proof fn lemma_ports_text_append(
    ps: Seq<PortView>,
    fs: Seq<ChargeFiguresView>,
    qs: Seq<PortView>,
    gs: Seq<ChargeFiguresView>,
    k: nat,
)
    requires
        fs.len() == ps.len(),
        k <= qs.len(),
        k <= gs.len(),
    ensures
        ports_text(ps + qs, fs + gs, ps.len() + k) == ports_text(ps, fs, ps.len())
            + ports_text(qs, gs, k),
    decreases k,
{
    if k == 0 {
        lemma_ports_text_prefix(ps, fs, qs, gs, ps.len());
        assert(ports_text(ps, fs, ps.len()) + ports_text(qs, gs, 0) =~= ports_text(
            ps,
            fs,
            ps.len(),
        ));
    } else {
        lemma_ports_text_append(ps, fs, qs, gs, (k - 1) as nat);
        let n = ps.len();
        assert((ps + qs)[n + k - 1] == qs[k - 1]);
        assert((fs + gs)[n + k - 1] == gs[k - 1]);
        let a = ports_text(ps, fs, n);
        let b = ports_text(qs, gs, (k - 1) as nat);
        assert(a + b + port_text(qs[k - 1], gs[k - 1]) + "\n"@ =~= a + (b + port_text(
            qs[k - 1],
            gs[k - 1],
        ) + "\n"@));
    }
}

/// The text of two snapshots' ports joined is the two texts joined, when
/// their figures are joined the same way (and neither is empty, whose text
/// says that there are no ports).
pub proof fn lemma_text_of_joined_snapshots(
    ps: Seq<PortView>,
    fs: Seq<ChargeFiguresView>,
    qs: Seq<PortView>,
    gs: Seq<ChargeFiguresView>,
)
    requires
        ps.len() > 0,
        qs.len() > 0,
        fs.len() == ps.len(),
        gs.len() == qs.len(),
    ensures
        snapshot_text(ps + qs, fs + gs) == snapshot_text(ps, fs) + snapshot_text(qs, gs),
{
    lemma_ports_text_append(ps, fs, qs, gs, qs.len());
}

/// The views of a list of figures.
pub open spec fn figures_view(fs: Seq<ChargeFigures>) -> Seq<ChargeFiguresView> {
    fs.map_values(|f: ChargeFigures| f@)
}

/// The snapshot as text; `figures[i]` are the figures of the charge of
/// port `i` (any value for a port without one).
pub fn to_text(snap: &Snapshot, _color: bool, figures: &Vec<ChargeFigures>) -> (r: String)
    requires
        figures@.len() == snap.ports@.len(),
    ensures
        r@ == snapshot_text(snap@, figures_view(figures@)),
{
    let mut out = String::new();
    if snap.ports.len() == 0 {
        push_str(&mut out, "No USB-C ports found.\n");
        assert(out@ =~= "No USB-C ports found.\n"@);
        return out;
    }
    let ghost ps = snap@;
    let ghost fs = figures_view(figures@);
    let mut i: usize = 0;
    assert(out@ =~= ports_text(ps, fs, 0));
    while i < snap.ports.len()
        invariant
            ps == snap@,
            fs == figures_view(figures@),
            figures@.len() == snap.ports@.len(),
            i <= snap.ports@.len(),
            out@ == ports_text(ps, fs, i as nat),
        decreases snap.ports@.len() - i,
    {
        render_port(&mut out, &snap.ports[i], &figures[i]);
        push_str(&mut out, "\n");
        i = i + 1;
        assert(out@ =~= ports_text(ps, fs, i as nat));
    }
    out
}

/// Appends the lines of a port.
pub fn render_port(out: &mut String, p: &Port, f: &ChargeFigures)
    ensures
        final(out)@ == old(out)@ + port_text(p@, f@),
{
    push_str(out, "[");
    push_str(out, p.name.as_str());
    push_str(out, "]\n");
    let ghost head = out@;
    assert(head =~= old(out)@ + ("["@ + p@.name + "]\n"@));
    if p.partner.is_none() {
        push_str(out, "  (nothing connected)\n");
    } else {
        render_connected(out, p, f);
    }
    assert(out@ =~= old(out)@ + port_text(p@, f@));
}

/// Concatenating in steps gives the concatenation of the steps.
proof fn lemma_concat5(o: Seq<char>, a: Seq<char>, b: Seq<char>, c: Seq<char>, d: Seq<char>, e: Seq<char>)
    ensures
        o + a + b + c + d + e == o + (a + b + c + d + e),
{
    assert(o + a + b + c + d + e =~= o + (a + b + c + d + e));
}

/// Appends the line of a port's roles.
fn render_role(out: &mut String, p: &Port)
    ensures
        final(out)@ == old(out)@ + role_text(p@),
{
    push_str(out, "  role:       ");
    push_opt_or_dash(out, &p.power_role);
    push_str(out, " / ");
    push_opt_or_dash(out, &p.data_role);
    push_str(out, "\n");
    assert(out@ =~= old(out)@ + role_text(p@));
}

/// Appends the line of a port's USB PD revision, when it has one.
fn render_rev(out: &mut String, p: &Port)
    ensures
        final(out)@ == old(out)@ + rev_text(p@),
{
    if let Some(rev) = &p.usb_pd_revision {
        push_str(out, "  pd rev:     ");
        push_str(out, rev.as_str());
        push_str(out, "\n");
    }
    assert(out@ =~= old(out)@ + rev_text(p@));
}

/// Appends the lines of a port's partner, when it has one.
fn render_partner_part(out: &mut String, p: &Port)
    ensures
        final(out)@ == old(out)@ + partner_part(p@),
{
    if let Some(partner) = &p.partner {
        render_partner(out, partner);
    } else {
        assert(out@ =~= old(out)@ + partner_part(p@));
    }
}

/// Appends the lines of a port's cable, or a line that there is none.
fn render_cable_part(out: &mut String, p: &Port)
    ensures
        final(out)@ == old(out)@ + cable_part(p@),
{
    match &p.cable {
        None => {
            push_str(out, "  cable:      (no e-marker / not detected)\n");
        },
        Some(c) => render_cable(out, c),
    }
}

/// Appends the line of a port's charge, when it has one.
fn render_live_part(out: &mut String, p: &Port, f: &ChargeFigures)
    ensures
        final(out)@ == old(out)@ + live_part(p@, f@),
{
    if let Some(live) = &p.live {
        render_live(out, live, f);
    } else {
        assert(out@ =~= old(out)@ + live_part(p@, f@));
    }
}

/// Appends the lines of a port that has a partner.
fn render_connected(out: &mut String, p: &Port, f: &ChargeFigures)
    ensures
        final(out)@ == old(out)@ + connected_text(p@, f@),
{
    render_role(out, p);
    render_rev(out, p);
    render_partner_part(out, p);
    render_cable_part(out, p);
    render_live_part(out, p, f);
    proof {
        lemma_concat5(
            old(out)@,
            role_text(p@),
            rev_text(p@),
            partner_part(p@),
            cable_part(p@),
            live_part(p@, f@),
        );
    }
}

/// Appends a text, or a dash where there is none.
fn push_opt_or_dash(out: &mut String, t: &Option<String>)
    ensures
        final(out)@ == old(out)@ + or_dash(t.deep_view()),
{
    match t {
        Some(s) => push_str(out, s.as_str()),
        None => push_str(out, "—"),
    }
}

/// Appends the lines of a partner.
pub fn render_partner(out: &mut String, p: &Partner)
    ensures
        final(out)@ == old(out)@ + partner_text(p@),
{
    let pd = match p.supports_usb_pd {
        Some(true) => "yes",
        Some(false) => "no",
        None => "—",
    };
    push_str(out, "  partner:    PD=");
    push_str(out, pd);
    push_str(out, ", altmodes=");
    match p.number_of_alternate_modes {
        Some(n) => push_decimal(out, n as u64),
        None => push_str(out, "—"),
    }
    push_str(out, "\n");
    if let Some(idh) = &p.identity_id_header {
        push_str(out, "              VID=0x");
        push_hex4(out, idh.usb_vid);
        push_str(out, "\n");
    }
    assert(out@ =~= old(out)@ + partner_text(p@));
}

/// The speed shown for a cable.
fn speed_str(v: &Option<CableVdo>) -> (r: &'static str)
    ensures
        r@ == speed_part(*v),
{
    proof {
        reveal_strlit("");
    }
    match v {
        Some(v) => match v.speed {
            CableSpeed::Usb20 => "USB 2.0",
            CableSpeed::Usb32Gen1 => "USB 3.2 Gen 1 (5 Gbps)",
            CableSpeed::Usb32Gen2 => "USB 3.2 Gen 2 (10 Gbps)",
            CableSpeed::Usb4 => "USB4 (≥20 Gbps)",
            CableSpeed::Unknown(_) => "",
        },
        None => "—",
    }
}

/// The current shown for a cable.
fn current_str(v: &Option<CableVdo>) -> (r: &'static str)
    ensures
        r@ == current_part(*v),
{
    proof {
        reveal_strlit("");
    }
    match v {
        Some(v) => match v.max_current {
            CableCurrent::A3 => "3 A (≤60 W @ 20 V)",
            CableCurrent::A5 => "5 A (≤100 W @ 20 V / ≤240 W @ 48 V EPR)",
            CableCurrent::Reserved => "reserved",
            CableCurrent::Unknown(_) => "",
        },
        None => "—",
    }
}

/// Appends the line of a cable whose VDO leaves a field unknown.
fn render_unknown_cable(out: &mut String, kind: &Option<String>, what: &str, b: u8)
    ensures
        final(out)@ == old(out)@ + unknown_cable_text(or_dash(kind.deep_view()), what@, b),
{
    push_str(out, "  cable:      ");
    push_opt_or_dash(out, kind);
    push_str(out, what);
    push_decimal(out, b as u64);
    push_str(out, ")\n");
    assert(out@ =~= old(out)@ + unknown_cable_text(or_dash(kind.deep_view()), what@, b));
}

/// Appends the lines of a cable whose speed and current are known.
fn render_known_cable(out: &mut String, c: &Cable)
    ensures
        final(out)@ == old(out)@ + known_cable_text(c@),
{
    push_str(out, "  cable:      ");
    push_opt_or_dash(out, &c.kind);
    push_str(out, ", ");
    push_str(out, speed_str(&c.cable_vdo));
    push_str(out, ", ");
    push_str(out, current_str(&c.cable_vdo));
    push_str(out, "\n");
    let ghost line = out@;
    if let Some(idh) = &c.identity_id_header {
        push_str(out, "              cable VID=0x");
        push_hex4(out, idh.usb_vid);
        push_str(out, "\n");
    }
    assert(out@ =~= line + cable_vid_text(c@.identity_id_header));
    assert(out@ =~= old(out)@ + known_cable_text(c@));
}

/// Appends the lines of a cable.
pub fn render_cable(out: &mut String, c: &Cable)
    ensures
        final(out)@ == old(out)@ + cable_text(c@),
{
    if let Some(v) = &c.cable_vdo {
        if let CableSpeed::Unknown(b) = v.speed {
            render_unknown_cable(out, &c.kind, ", speed=unknown(", b);
            return ;
        }
        if let CableCurrent::Unknown(b) = v.max_current {
            render_unknown_cable(out, &c.kind, ", current=unknown(", b);
            return ;
        }
    }
    render_known_cable(out, c);
}

/// Appends the line of a charge, with `f` its figures.
pub fn render_live(out: &mut String, l: &LiveCharge, f: &ChargeFigures)
    ensures
        final(out)@ == old(out)@ + live_text(l@, f@),
{
    push_str(out, "  charging:   ");
    if l.voltage_now_uv.is_some() && l.current_now_ua.is_some() {
        push_str(out, f.watts.as_str());
        push_str(out, " W");
    } else {
        push_str(out, "—");
    }
    push_str(out, "  (");
    if l.voltage_now_uv.is_some() {
        push_str(out, f.volts.as_str());
        push_str(out, " V");
    } else {
        push_str(out, "— V");
    }
    push_str(out, ", ");
    if l.current_now_ua.is_some() {
        push_str(out, f.amps.as_str());
        push_str(out, " A");
    } else {
        push_str(out, "— A");
    }
    push_str(out, ")\n");
    assert(out@ =~= old(out)@ + live_text(l@, f@));
}

} // verus!
