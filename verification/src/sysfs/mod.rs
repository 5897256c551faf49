//! The sysfs tree: where the USB-C classes live, what their attribute files
//! hold, and how the values in them are read.
//!
//! Reading the files is left to the caller, which hands over their contents
//! (`None` for a file that could not be read as text); everything decided
//! from those contents is here.

use vstd::prelude::*;
use crate::model::{LiveChargeView, Port, PortView, Snapshot, ports_view};
use crate::text::{chars_of, push_chars, push_str, str_eq, trim, trim_str};
use power_supply::{SupplyFiles, find_for_sinking_port, first_sinking};
use typec::{PortFiles, enumerate, enumerate_ports};

pub mod power_supply;
pub mod typec;

verus! {

/// The root of a sysfs tree, such as `/sys`.
pub struct SysfsRoot {
    root: String,
}

/// `rel` appended to the path `base`, as `Path::join` does on Unix: an
/// absolute `rel` replaces `base`, and a separator goes between them unless
/// `base` is empty or already ends in one.
pub open spec fn path_join(base: Seq<char>, rel: Seq<char>) -> Seq<char> {
    if rel.len() > 0 && rel[0] == '/' {
        rel
    } else if base.len() == 0 || base.last() == '/' {
        base + rel
    } else {
        base.push('/') + rel
    }
}

/// `path_join` on strings.
pub fn join_path(base: &str, rel: &str) -> (r: String)
    ensures
        r@ == path_join(base@, rel@),
{
    let b = chars_of(base);
    let r = chars_of(rel);
    if r.len() > 0 && r[0] == '/' {
        let mut out = String::new();
        push_str(&mut out, rel);
        assert(out@ =~= rel@);
        out
    } else {
        let mut out = String::new();
        push_str(&mut out, base);
        if !(b.len() == 0 || b[b.len() - 1] == '/') {
            crate::text::push_char(&mut out, '/');
        }
        push_str(&mut out, rel);
        assert(out@ =~= path_join(base@, rel@));
        out
    }
}

impl View for SysfsRoot {
    type V = Seq<char>;

    closed spec fn view(&self) -> Seq<char> {
        self.root@
    }
}

impl SysfsRoot {
    /// A sysfs tree rooted at `root`.
    pub fn new(root: String) -> (r: SysfsRoot)
        ensures
            r@ == root@,
    {
        SysfsRoot { root }
    }

    /// The system's sysfs tree, `/sys`.
    pub fn system() -> (r: SysfsRoot)
        ensures
            r@ == "/sys"@,
    {
        SysfsRoot::new(String::from_str("/sys"))
    }

    /// The snapshot of the USB-C ports that `listing`, read under this root,
    /// describes: the ports sorted by name, each port whose power role is
    /// `sink` with the charge of the first online USB-C supply.
    pub fn snapshot(&self, listing: &SysfsListing) -> (r: Snapshot)
        ensures
            r@ == snapshot_of(*listing),
    {
        let mut ports = enumerate(&listing.ports);
        let live = find_for_sinking_port(&listing.supplies);
        let ghost sorted = ports_view(ports@);
        let n: usize = ports.len();
        let mut i: usize = 0;
        while i < n
            invariant
                n == ports@.len(),
                i <= n,
                sorted.len() == n,
                forall|k: int| 0 <= k < i ==> #[trigger] ports@[k]@ == with_live(sorted[k], crate::model::opt_view(live)),
                forall|k: int| i <= k < n ==> #[trigger] ports@[k]@ == sorted[k],
            decreases n - i,
        {
            let sink = match &ports[i].power_role {
                Some(role) => str_eq(role.as_str(), "sink"),
                None => false,
            };
            if sink {
                let charge = match &live {
                    Some(l) => Some(l.duplicate()),
                    None => None,
                };
                assert(crate::model::opt_view(charge) == crate::model::opt_view(live));
                ports[i].live = charge;
                assert(ports@[i as int]@ =~= with_live(sorted[i as int], crate::model::opt_view(live)));
            } else {
                assert(ports@[i as int]@ == with_live(sorted[i as int], crate::model::opt_view(live)));
            }
            i = i + 1;
        }
        let r = ports_into_snapshot(ports);
        assert(r@ =~= snapshot_of(*listing));
        r
    }

    /// The path of the device class `name`: `<root>/class/<name>`.
    pub fn class(&self, name: &str) -> (r: String)
        ensures
            r@ == path_join(path_join(self@, "class"@), name@),
    {
        let class_dir = join_path(self.root.as_str(), "class");
        join_path(class_dir.as_str(), name)
    }
}

/// What was read under a sysfs root: the entries of the `typec` class and
/// of the `power_supply` class, each with its attribute files, in the order
/// of their directories.
pub struct SysfsListing {
    pub ports: Vec<PortFiles>,
    pub supplies: Vec<SupplyFiles>,
}

/// `p` with the charge `live` when its power role is `sink`.
pub open spec fn with_live(p: PortView, live: Option<LiveChargeView>) -> PortView {
    if p.power_role == Some("sink"@) {
        PortView { live, ..p }
    } else {
        p
    }
}

/// The ports that a listing describes.
pub open spec fn snapshot_of(listing: SysfsListing) -> Seq<PortView> {
    let live = first_sinking(listing.supplies@);
    enumerate_ports(listing.ports@).map_values(|p: PortView| with_live(p, live))
}

/// In a snapshot, a port carries a charge exactly when its power role is
/// `sink`, and then it is the charge of the first online USB-C supply; the
/// ports are those that `enumerate` gives, in its order.
pub proof fn lemma_charge_only_on_sink_ports(listing: SysfsListing)
    ensures
        snapshot_of(listing).len() == enumerate_ports(listing.ports@).len(),
        forall|i: int|
            0 <= i < snapshot_of(listing).len() ==> {
                let p = #[trigger] snapshot_of(listing)[i];
                let q = enumerate_ports(listing.ports@)[i];
                &&& p.name == q.name
                &&& p.power_role == q.power_role
                &&& p.power_role == Some("sink"@) ==> p.live == first_sinking(listing.supplies@)
                &&& p.power_role != Some("sink"@) ==> p.live is None
            },
{
    typec::lemma_enumerate_only_ports(listing.ports@);
}

/// A snapshot holding `ports`.
pub fn ports_into_snapshot(ports: Vec<Port>) -> (r: Snapshot)
    ensures
        r.ports == ports,
{
    Snapshot { ports }
}

/// The contents of an attribute file, trimmed.
pub open spec fn trimmed(raw: Option<String>) -> Option<Seq<char>> {
    match raw {
        Some(t) => Some(trim(t@)),
        None => None,
    }
}

/// The contents of an attribute file, trimmed.
pub fn read_trim(raw: &Option<String>) -> (r: Option<String>)
    ensures
        r.deep_view() == trimmed(*raw),
{
    match raw {
        Some(t) => Some(trim_str(t.as_str())),
        None => None,
    }
}

/// The first index at or after `from` where `c` stands in `s`, or `s.len()`.
pub open spec fn index_from(s: Seq<char>, c: char, from: int) -> int
    recommends
        0 <= from,
    decreases s.len() - from,
{
    if from >= s.len() {
        s.len() as int
    } else if s[from] == c {
        from
    } else {
        index_from(s, c, from + 1)
    }
}

/// The active choice of a sysfs list such as `[host] device` or
/// `C [PD] PD_PPS`: the text between the first `[` and the `]` after it.
/// A value without such brackets is its own choice.
pub open spec fn active_choice(s: Seq<char>) -> Seq<char> {
    let i = index_from(s, '[', 0);
    let j = index_from(s, ']', i + 1);
    if i < s.len() && j < s.len() {
        s.subrange(i + 1, j)
    } else {
        s
    }
}

/// The first index at or after `from` where `c` stands in `v`, or its length.
fn find_char(v: &Vec<char>, c: char, from: usize) -> (r: usize)
    requires
        from <= v@.len(),
    ensures
        r == index_from(v@, c, from as int),
        from <= r <= v@.len(),
{
    let mut i: usize = from;
    while i < v.len() && v[i] != c
        invariant
            from <= i <= v@.len(),
            index_from(v@, c, from as int) == index_from(v@, c, i as int),
        decreases v@.len() - i,
    {
        i = i + 1;
    }
    i
}

/// The active choice is the text between the first `[` and the first `]`
/// after it; a value without a `[` is its own choice.
pub proof fn lemma_active_choice(a: Seq<char>, x: Seq<char>, b: Seq<char>)
    ensures
        (forall|i: int| 0 <= i < a.len() ==> a[i] != '[') && (forall|i: int|
            0 <= i < x.len() ==> x[i] != ']') ==> active_choice(a + seq!['['] + x + seq![']'] + b)
            == x,
        (forall|i: int| 0 <= i < a.len() ==> a[i] != '[') ==> active_choice(a) == a,
{
    if forall|i: int| 0 <= i < a.len() ==> a[i] != '[' {
        lemma_index_from_absent(a, '[', 0);
    }
    if (forall|i: int| 0 <= i < a.len() ==> a[i] != '[') && (forall|i: int|
        0 <= i < x.len() ==> x[i] != ']') {
        let s = a + seq!['['] + x + seq![']'] + b;
        let n = a.len() as int;
        let m = x.len() as int;
        assert(s[n] == '[');
        assert forall|i: int| 0 <= i < n implies s[i] != '[' by {
            assert(s[i] == a[i]);
        }
        lemma_index_from_prefix(s, '[', 0, n);
        assert(s[n + 1 + m] == ']');
        assert forall|i: int| n + 1 <= i < n + 1 + m implies s[i] != ']' by {
            assert(s[i] == x[i - n - 1]);
        }
        lemma_index_from_prefix(s, ']', n + 1, n + 1 + m);
        assert(s.subrange(n + 1, n + 1 + m) =~= x);
    }
}

/// Where `c` does not stand from `from` on, it is not found.
proof fn lemma_index_from_absent(s: Seq<char>, c: char, from: int)
    requires
        0 <= from <= s.len(),
        forall|i: int| from <= i < s.len() ==> s[i] != c,
    ensures
        index_from(s, c, from) == s.len(),
    decreases s.len() - from,
{
    if from < s.len() {
        lemma_index_from_absent(s, c, from + 1);
    }
}

/// Where `c` first stands at `k`, searching from `from` finds it there.
proof fn lemma_index_from_prefix(s: Seq<char>, c: char, from: int, k: int)
    requires
        0 <= from <= k < s.len(),
        s[k] == c,
        forall|i: int| from <= i < k ==> s[i] != c,
    ensures
        index_from(s, c, from) == k,
    decreases k - from,
{
    if from < k {
        lemma_index_from_prefix(s, c, from + 1, k);
    }
}

/// The path of a class: `<root>/class/<name>`, with no doubled separator
/// after a root that ends in one, and a name that is an absolute path taken
/// as it is.
pub proof fn lemma_class_path(root: Seq<char>, name: Seq<char>)
    ensures
        root.len() > 0 && root.last() != '/' && !(name.len() > 0 && name[0] == '/') ==> path_join(
            path_join(root, "class"@),
            name,
        ) == root + "/class/"@ + name,
        root.len() > 0 && root.last() == '/' && !(name.len() > 0 && name[0] == '/') ==> path_join(
            path_join(root, "class"@),
            name,
        ) == root + "class/"@ + name,
        name.len() > 0 && name[0] == '/' ==> path_join(path_join(root, "class"@), name) == name,
{
    reveal_strlit("class");
    reveal_strlit("/class/");
    reveal_strlit("class/");
    let c = path_join(root, "class"@);
    assert(c.len() > 0 && c.last() == 's');
    if root.len() > 0 && root.last() != '/' && !(name.len() > 0 && name[0] == '/') {
        assert(path_join(c, name) =~= root + "/class/"@ + name);
    }
    if root.len() > 0 && root.last() == '/' && !(name.len() > 0 && name[0] == '/') {
        assert(path_join(c, name) =~= root + "class/"@ + name);
    }
}

/// The active choice of a sysfs list, such as `PD` for `C [PD] PD_PPS`.
pub fn parse_active(s: &str) -> (r: String)
    ensures
        r@ == active_choice(s@),
{
    let v = chars_of(s);
    let i = find_char(&v, '[', 0);
    if i < v.len() {
        let j = find_char(&v, ']', i + 1);
        if j < v.len() {
            let mut out = String::new();
            push_chars(&mut out, &v, i + 1, j);
            assert(out@ =~= active_choice(s@));
            return out;
        }
    }
    let mut out = String::new();
    push_str(&mut out, s);
    assert(out@ =~= s@);
    out
}

} // verus!
