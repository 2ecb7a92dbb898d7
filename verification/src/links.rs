//! Registry of interface links between components.
//!
//! A link wires a source component to a target package through a set of
//! interfaces. Links sharing the same identity (source, name, namespace,
//! package) form one slot, and within a slot the interface sets of all
//! stored links must be pairwise disjoint: one connection point must not
//! wire the same interface twice.

use vstd::prelude::*;

verus! {

/// The identity of a link slot at the specification level:
/// source id, link name, wit namespace and wit package, as character sequences.
pub type KeyView = (Seq<char>, Seq<char>, Seq<char>, Seq<char>);

/// An entry's interface collection at the specification level: the set of
/// interface names a stored link wires, derived once from its declared list.
pub type IfaceSet = Set<Seq<char>>;

/// The registry at the specification level: each slot identity maps to the
/// set of interface sets stored under it.
pub type RegistryView = Map<KeyView, Set<IfaceSet>>;

/// The views of a list of interface names.
pub open spec fn iface_views(v: Vec<String>) -> Seq<Seq<char>> {
    v@.map_values(|s: String| s@)
}

/// The set of interface names a declared list wires: duplicates collapse and
/// declaration order is irrelevant.
pub open spec fn set_of_ifaces(ifl: Seq<Seq<char>>) -> IfaceSet {
    Set::new(|x: Seq<char>| ifl.contains(x))
}

/// Whether two interface sets share at least one interface name.
pub open spec fn overlaps(a: IfaceSet, b: IfaceSet) -> bool {
    exists|x: Seq<char>| a.contains(x) && b.contains(x)
}

/// Whether a *different* entry stored in a slot shares an interface with
/// `s`: the entry equal to `s` is the same link and never a conflict.
pub open spec fn slot_conflicts(entries: Set<IfaceSet>, s: IfaceSet) -> bool {
    exists|e: IfaceSet| entries.contains(e) && e != s && overlaps(e, s)
}

/// Inserting a link with identity `k` and interface set `s` into registry
/// `m`: a fresh identity opens a new slot; an interface shared with a
/// different link already in the slot rejects the insertion and leaves the
/// registry as it was; otherwise the set joins the slot as a set member, so
/// re-inserting a link equal in identity and interface set is a successful
/// no-op. The second component tells whether the insertion was accepted.
pub open spec fn registry_insert(m: RegistryView, k: KeyView, s: IfaceSet) -> (
    RegistryView,
    bool,
) {
    if !m.contains_key(k) {
        (m.insert(k, Set::<IfaceSet>::empty().insert(s)), true)
    } else if slot_conflicts(m[k], s) {
        (m, false)
    } else {
        (m.insert(k, m[k].insert(s)), true)
    }
}

/// Removing identity `k` deletes the whole slot, every link in it; the second
/// component tells whether a slot was there to delete.
pub open spec fn registry_remove(m: RegistryView, k: KeyView) -> (RegistryView, bool) {
    (m.remove(k), m.contains_key(k))
}

/// The identity and interface list of each link in `q`.
pub open spec fn link_pairs(q: Seq<Link>) -> Seq<(KeyView, Seq<Seq<char>>)> {
    q.map_values(|l: Link| (l.key_view(), l.ifaces()))
}

/// A directed link from a source component through a named package,
/// together with the interfaces it wires.
pub struct Link {
    pub source_id: String,
    pub name: String,
    pub wit_namespace: String,
    pub wit_package: String,
    pub interfaces: Vec<String>,
}

impl Link {
    /// The slot identity of this link.
    pub open spec fn key_view(self) -> KeyView {
        (self.source_id@, self.name@, self.wit_namespace@, self.wit_package@)
    }

    /// The views of this link's declared interface list.
    pub open spec fn ifaces(self) -> Seq<Seq<char>> {
        iface_views(self.interfaces)
    }

    /// The set of interface names this link wires.
    pub open spec fn iface_set(self) -> IfaceSet {
        set_of_ifaces(self.ifaces())
    }

    /// The slot identity of this link as an owned key.
    pub fn key(&self) -> (k: LinkKey)
        ensures
            k@ == self.key_view(),
    {
        LinkKey {
            source_id: self.source_id.clone(),
            name: self.name.clone(),
            wit_namespace: self.wit_namespace.clone(),
            wit_package: self.wit_package.clone(),
        }
    }
}

impl Clone for Link {
    /// An exact copy: same identity, same interface list.
    fn clone(&self) -> (r: Self)
        ensures
            r.key_view() == self.key_view(),
            r.ifaces() == self.ifaces(),
    {
        let r = Link {
            source_id: self.source_id.clone(),
            name: self.name.clone(),
            wit_namespace: self.wit_namespace.clone(),
            wit_package: self.wit_package.clone(),
            interfaces: clone_strings(&self.interfaces),
        };
        proof {
            assert(r.ifaces() =~= self.ifaces());
        }
        r
    }
}

/// Copies a list of strings, keeping every element's characters.
fn clone_strings(v: &Vec<String>) -> (r: Vec<String>)
    ensures
        r@ == v@,
{
    let mut r: Vec<String> = Vec::new();
    let mut i: usize = 0;
    while i < v.len()
        invariant
            i <= v@.len(),
            r@ =~= v@.subrange(0, i as int),
        decreases v@.len() - i,
    {
        r.push(v[i].clone());
        i += 1;
    }
    proof {
        assert(r@ =~= v@);
    }
    r
}

/// The slot identity alone, without interface data; enough to delete a slot.
pub struct LinkKey {
    pub source_id: String,
    pub name: String,
    pub wit_namespace: String,
    pub wit_package: String,
}

impl View for LinkKey {
    type V = KeyView;

    open spec fn view(&self) -> KeyView {
        (self.source_id@, self.name@, self.wit_namespace@, self.wit_package@)
    }
}

impl LinkKey {
    /// Builds a slot identity from the four raw identity strings.
    pub fn new(source_id: &str, name: &str, wit_namespace: &str, wit_package: &str) -> (r: Self)
        ensures
            r@ == (source_id@, name@, wit_namespace@, wit_package@),
    {
        LinkKey {
            source_id: source_id.to_owned(),
            name: name.to_owned(),
            wit_namespace: wit_namespace.to_owned(),
            wit_package: wit_package.to_owned(),
        }
    }
}

/// Whether two owned keys carry the same four identity strings.
fn keys_equal(a: &LinkKey, b: &LinkKey) -> (r: bool)
    ensures
        r == (a@ == b@),
{
    let r = a.source_id == b.source_id && a.name == b.name && a.wit_namespace == b.wit_namespace
        && a.wit_package == b.wit_package;
    r
}

/// Whether two interface lists share an element, by character comparison.
fn lists_overlap(a: &Vec<String>, b: &Vec<String>) -> (r: bool)
    ensures
        r == overlaps(set_of_ifaces(iface_views(*a)), set_of_ifaces(iface_views(*b))),
{
    let mut i: usize = 0;
    while i < a.len()
        invariant
            i <= a@.len(),
            forall|i2: int, j2: int|
                0 <= i2 < i && 0 <= j2 < b@.len() ==> (#[trigger] a@[i2]@) != (#[trigger] b@[j2]@),
        decreases a@.len() - i,
    {
        let mut j: usize = 0;
        while j < b.len()
            invariant
                i < a@.len(),
                j <= b@.len(),
                forall|j2: int| 0 <= j2 < j ==> a@[i as int]@ != (#[trigger] b@[j2]@),
            decreases b@.len() - j,
        {
            if a[i] == b[j] {
                proof {
                    let x = a@[i as int]@;
                    assert(iface_views(*a)[i as int] == x);
                    assert(iface_views(*b)[j as int] == x);
                    assert(iface_views(*a).contains(x));
                    assert(iface_views(*b).contains(x));
                    assert(set_of_ifaces(iface_views(*a)).contains(x));
                    assert(set_of_ifaces(iface_views(*b)).contains(x));
                }
                return true;
            }
            j += 1;
        }
        i += 1;
    }
    proof {
        let sa = set_of_ifaces(iface_views(*a));
        let sb = set_of_ifaces(iface_views(*b));
        assert(!overlaps(sa, sb)) by {
            if overlaps(sa, sb) {
                let x = choose|x: Seq<char>| sa.contains(x) && sb.contains(x);
                assert(iface_views(*a).contains(x));
                assert(iface_views(*b).contains(x));
                let i2 = choose|i2: int|
                    0 <= i2 < iface_views(*a).len() && iface_views(*a)[i2] == x;
                let j2 = choose|j2: int|
                    0 <= j2 < iface_views(*b).len() && iface_views(*b)[j2] == x;
                assert(a@[i2]@ == x);
                assert(b@[j2]@ == x);
            }
        }
    }
    false
}

/// Whether the list names interface `x`, by character comparison.
fn contains_iface(v: &Vec<String>, x: &String) -> (r: bool)
    ensures
        r == set_of_ifaces(iface_views(*v)).contains(x@),
{
    let mut i: usize = 0;
    while i < v.len()
        invariant
            i <= v@.len(),
            forall|i2: int| 0 <= i2 < i ==> (#[trigger] v@[i2]@) != x@,
        decreases v@.len() - i,
    {
        if v[i] == *x {
            proof {
                assert(iface_views(*v)[i as int] == x@);
                assert(iface_views(*v).contains(x@));
            }
            return true;
        }
        i += 1;
    }
    proof {
        assert(!set_of_ifaces(iface_views(*v)).contains(x@)) by {
            if iface_views(*v).contains(x@) {
                let i2 = choose|i2: int|
                    0 <= i2 < iface_views(*v).len() && iface_views(*v)[i2] == x@;
                assert(v@[i2]@ == x@);
            }
        }
    }
    false
}

/// Whether every interface the first list names the second names too.
fn covers_ifaces(a: &Vec<String>, b: &Vec<String>) -> (r: bool)
    ensures
        r == set_of_ifaces(iface_views(*a)).subset_of(set_of_ifaces(iface_views(*b))),
{
    let mut i: usize = 0;
    while i < a.len()
        invariant
            i <= a@.len(),
            forall|i2: int|
                0 <= i2 < i ==> set_of_ifaces(iface_views(*b)).contains(#[trigger] a@[i2]@),
        decreases a@.len() - i,
    {
        if !contains_iface(b, &a[i]) {
            proof {
                assert(iface_views(*a)[i as int] == a@[i as int]@);
                assert(iface_views(*a).contains(a@[i as int]@));
                assert(set_of_ifaces(iface_views(*a)).contains(a@[i as int]@));
            }
            return false;
        }
        i += 1;
    }
    proof {
        let sa = set_of_ifaces(iface_views(*a));
        let sb = set_of_ifaces(iface_views(*b));
        assert forall|x: Seq<char>| #[trigger] sa.contains(x) implies sb.contains(x) by {
            let i2 = choose|i2: int|
                0 <= i2 < iface_views(*a).len() && iface_views(*a)[i2] == x;
            assert(a@[i2]@ == x);
            assert(sb.contains(a@[i2]@));
        }
    }
    true
}

/// Whether two lists name the same set of interfaces, however ordered and
/// however often repeated.
fn same_iface_set(a: &Vec<String>, b: &Vec<String>) -> (r: bool)
    ensures
        r == (set_of_ifaces(iface_views(*a)) == set_of_ifaces(iface_views(*b))),
{
    let fwd = covers_ifaces(a, b);
    let bwd = covers_ifaces(b, a);
    proof {
        let sa = set_of_ifaces(iface_views(*a));
        let sb = set_of_ifaces(iface_views(*b));
        if fwd && bwd {
            assert(sa =~= sb);
        } else if sa == sb {
            assert(sa.subset_of(sb) && sb.subset_of(sa));
        }
    }
    fwd && bwd
}

/// The error an insertion returns when a link's interfaces overlap those of a
/// link already stored under the same identity.
pub struct LinkConflict {}

impl LinkConflict {
    /// A human-readable statement of the rule that was broken.
    pub fn message(&self) -> (r: String)
        ensures
            r@ == "Links between the same component and package must have disjoint (non overlapping) interfaces"@,
    {
        "Links between the same component and package must have disjoint (non overlapping) interfaces".to_owned()
    }
}

/// One slot: the links that share one identity.
struct Slot {
    key: LinkKey,
    entries: Vec<Link>,
}

impl Slot {
    /// The interface sets stored in this slot.
    spec fn entry_set(self) -> Set<IfaceSet> {
        Set::new(
            |s: IfaceSet|
                exists|j: int|
                    0 <= j < self.entries@.len() && (#[trigger] self.entries@[j]).iface_set() == s,
        )
    }

    /// Every entry carries the slot's identity; interface sets are pairwise
    /// disjoint and pairwise distinct; a slot is never empty.
    spec fn wf(self) -> bool {
        &&& self.entries@.len() >= 1
        &&& forall|j: int|
            0 <= j < self.entries@.len() ==> (#[trigger] self.entries@[j]).key_view() == self.key@
        &&& forall|j1: int, j2: int|
            0 <= j1 < j2 < self.entries@.len() ==> !overlaps(
                #[trigger] self.entries@[j1].iface_set(),
                #[trigger] self.entries@[j2].iface_set(),
            ) && self.entries@[j1].iface_set() != self.entries@[j2].iface_set()
    }
}

/// The registry of interface links, grouped into slots by identity.
pub struct Links {
    slots: Vec<Slot>,
}

impl Links {
    /// The identity of the slot at position `i`.
    spec fn slot_key_at(self, i: int) -> KeyView {
        self.slots@[i].key@
    }

    /// Whether some slot carries identity `k`.
    spec fn has_key(self, k: KeyView) -> bool {
        exists|i: int| 0 <= i < self.slots@.len() && #[trigger] self.slot_key_at(i) == k
    }

    /// The position of the slot carrying identity `k`.
    spec fn index_of(self, k: KeyView) -> int {
        choose|i: int| 0 <= i < self.slots@.len() && #[trigger] self.slot_key_at(i) == k
    }

    /// The registry as a map from slot identity to the set of stored
    /// interface sets.
    pub closed spec fn view(&self) -> RegistryView {
        Map::new(
            |k: KeyView| self.has_key(k),
            |k: KeyView| self.slots@[self.index_of(k)].entry_set(),
        )
    }

    /// Slots are internally well-formed and their identities are pairwise
    /// distinct.
    pub closed spec fn wf(&self) -> bool {
        &&& forall|i: int| 0 <= i < self.slots@.len() ==> (#[trigger] self.slots@[i]).wf()
        &&& forall|i1: int, i2: int|
            0 <= i1 < i2 < self.slots@.len() ==> self.slot_key_at(i1) != self.slot_key_at(i2)
    }

    /// Whether the registry stores a link with identity `k` and interface
    /// set `s`.
    pub open spec fn holds_entry(self, k: KeyView, s: IfaceSet) -> bool {
        self@.contains_key(k) && self@[k].contains(s)
    }

    /// The slot at a valid position is what the registry maps its identity to.
    proof fn lemma_view_at(self, i: int)
        requires
            self.wf(),
            0 <= i < self.slots@.len(),
        ensures
            self@.contains_key(self.slot_key_at(i)),
            self@[self.slot_key_at(i)] == self.slots@[i].entry_set(),
    {
        let k = self.slot_key_at(i);
        assert(self.has_key(k));
        let i2 = self.index_of(k);
        assert(0 <= i2 < self.slots@.len() && self.slot_key_at(i2) == k);
        if i2 != i {
            if i2 < i {
                assert(self.slot_key_at(i2) != self.slot_key_at(i));
            } else {
                assert(self.slot_key_at(i) != self.slot_key_at(i2));
            }
        }
        assert(i2 == i);
    }

    /// An empty registry: no slots, no links.
    pub fn new() -> (r: Links)
        ensures
            r.wf(),
            r@ == Map::<KeyView, Set<IfaceSet>>::empty(),
    {
        let r = Links { slots: Vec::new() };
        proof {
            assert(r@ =~= Map::<KeyView, Set<IfaceSet>>::empty());
        }
        r
    }

    /// The position of the slot whose identity matches `key`, if any.
    fn find_slot_index(&self, key: &LinkKey) -> (r: Option<usize>)
        requires
            self.wf(),
        ensures
            match r {
                Some(i) => 0 <= i < self.slots@.len() && self.slot_key_at(i as int) == key@,
                None => !self.has_key(key@),
            },
    {
        let mut i: usize = 0;
        while i < self.slots.len()
            invariant
                i <= self.slots@.len(),
                forall|i2: int| 0 <= i2 < i ==> #[trigger] self.slot_key_at(i2) != key@,
            decreases self.slots@.len() - i,
        {
            if keys_equal(&self.slots[i].key, key) {
                return Some(i);
            }
            i += 1;
        }
        None
    }

    /// Appends `link` to the slot at position `i`, which already carries its
    /// identity and holds no entry overlapping or equal to its interface set.
    fn push_entry(&mut self, i: usize, link: Link)
        requires
            old(self).wf(),
            i < old(self).slots@.len(),
            old(self).slot_key_at(i as int) == link.key_view(),
            forall|m: int|
                0 <= m < old(self).slots@[i as int].entries@.len() ==> !overlaps(
                    (#[trigger] old(self).slots@[i as int].entries@[m]).iface_set(),
                    link.iface_set(),
                ) && old(self).slots@[i as int].entries@[m].iface_set() != link.iface_set(),
        ensures
            final(self).wf(),
            final(self)@ == old(self)@.insert(
                link.key_view(),
                old(self)@[link.key_view()].insert(link.iface_set()),
            ),
    {
        let ghost k = link.key_view();
        let ghost ifl = link.iface_set();
        let ghost pre = *self;
        proof {
            pre.lemma_view_at(i as int);
        }
        self.slots[i].entries.push(link);
        proof {
            let iv = i as int;
            let n = pre.slots@[iv].entries@.len() as int;
            assert(self.slots@.len() == pre.slots@.len());
            assert(self.slots@[iv].key == pre.slots@[iv].key);
            assert(self.slots@[iv].entries@ == pre.slots@[iv].entries@.push(link));
            assert forall|t: int|
                0 <= t < self.slots@.len() implies (#[trigger] self.slots@[t]).wf() by {
                if t != iv {
                    assert(self.slots@[t] == pre.slots@[t]);
                    assert(pre.slots@[t].wf());
                } else {
                    let s = self.slots@[iv];
                    assert(pre.slots@[iv].wf());
                    assert forall|j: int|
                        0 <= j < s.entries@.len() implies (#[trigger] s.entries@[j]).key_view()
                        == s.key@ by {
                        if j < n {
                            assert(s.entries@[j] == pre.slots@[iv].entries@[j]);
                        }
                    }
                    assert forall|j1: int, j2: int|
                        0 <= j1 < j2 < s.entries@.len() implies !overlaps(
                        #[trigger] s.entries@[j1].iface_set(),
                        #[trigger] s.entries@[j2].iface_set(),
                    ) && s.entries@[j1].iface_set() != s.entries@[j2].iface_set() by {
                        if j2 < n {
                            assert(pre.slots@[iv].wf());
                        } else {
                            assert(s.entries@[j1] == pre.slots@[iv].entries@[j1]);
                            assert(s.entries@[j2] == link);
                        }
                    }
                }
            }
            assert forall|t1: int, t2: int|
                0 <= t1 < t2 < self.slots@.len() implies self.slot_key_at(t1) != self.slot_key_at(
                t2,
            ) by {
                assert(self.slot_key_at(t1) == pre.slot_key_at(t1));
                assert(self.slot_key_at(t2) == pre.slot_key_at(t2));
            }
            assert(self.slots@[iv].entry_set() =~= pre.slots@[iv].entry_set().insert(ifl)) by {
                let s_new = self.slots@[iv].entry_set();
                let s_old = pre.slots@[iv].entry_set();
                assert forall|e: IfaceSet| #[trigger]
                    s_new.contains(e) implies s_old.insert(ifl).contains(e) by {
                    let j = choose|j: int|
                        0 <= j < self.slots@[iv].entries@.len() && (
                        #[trigger] self.slots@[iv].entries@[j]).iface_set() == e;
                    if j < n {
                        assert(pre.slots@[iv].entries@[j].iface_set() == e);
                        assert(s_old.contains(e));
                    } else {
                        assert(e == ifl);
                    }
                }
                assert forall|e: IfaceSet| #[trigger]
                    s_old.insert(ifl).contains(e) implies s_new.contains(e) by {
                    if e == ifl {
                        assert(self.slots@[iv].entries@[n].iface_set() == ifl);
                    } else {
                        let j = choose|j: int|
                            0 <= j < pre.slots@[iv].entries@.len() && (
                            #[trigger] pre.slots@[iv].entries@[j]).iface_set() == e;
                        assert(self.slots@[iv].entries@[j].iface_set() == e);
                    }
                }
            }
            self.lemma_view_at(iv);
            assert forall|k2: KeyView| #[trigger]
                self@.contains_key(k2) implies pre@.contains_key(k2) by {
                let t = choose|t: int|
                    0 <= t < self.slots@.len() && #[trigger] self.slot_key_at(t) == k2;
                assert(pre.slot_key_at(t) == k2);
                assert(pre.has_key(k2));
            }
            assert forall|k2: KeyView| #[trigger]
                pre@.contains_key(k2) implies self@.contains_key(k2) by {
                let t = choose|t: int|
                    0 <= t < pre.slots@.len() && #[trigger] pre.slot_key_at(t) == k2;
                assert(self.slot_key_at(t) == k2);
            }
            assert forall|k2: KeyView|
                #[trigger] self@.contains_key(k2) && k2 != k implies self@[k2] == pre@[k2] by {
                let t = choose|t: int|
                    0 <= t < self.slots@.len() && #[trigger] self.slot_key_at(t) == k2;
                assert(t != iv);
                assert(self.slots@[t] == pre.slots@[t]);
                self.lemma_view_at(t);
                pre.lemma_view_at(t);
            }
            assert(self@ =~~= pre@.insert(k, pre@[k].insert(ifl)));
        }
    }

    /// Stores `link`. A link whose interfaces overlap those of a different
    /// link already stored under the same identity is rejected and the
    /// registry is left unchanged; a link equal in identity and interface set
    /// to a stored one is a successful no-op; any other link joins its slot,
    /// or opens a new one.
    pub fn insert(&mut self, link: Link) -> (r: Result<(), LinkConflict>)
        requires
            old(self).wf(),
        ensures
            final(self).wf(),
            final(self)@ == registry_insert(old(self)@, link.key_view(), link.iface_set()).0,
            (r matches Ok(())) == registry_insert(old(self)@, link.key_view(), link.iface_set()).1,
            (r matches Err(_)) ==> *final(self) == *old(self),
    {
        let ghost k = link.key_view();
        let ghost ifs = link.iface_set();
        let key = link.key();
        match self.find_slot_index(&key) {
            None => {
                proof {
                    assert(!old(self)@.contains_key(k));
                }
                let mut entries: Vec<Link> = Vec::new();
                entries.push(link);
                self.slots.push(Slot { key, entries });
                proof {
                    let n = old(self).slots@.len() as int;
                    assert(self.slots@[n].entries@[0].iface_set() == ifs);
                    assert forall|i: int| 0 <= i < self.slots@.len() implies (
                    #[trigger] self.slots@[i]).wf() by {
                        if i < n {
                            assert(old(self).slots@[i].wf());
                        }
                    }
                    assert forall|i1: int, i2: int|
                        0 <= i1 < i2 < self.slots@.len() implies self.slot_key_at(i1)
                        != self.slot_key_at(i2) by {
                        if i2 < n {
                            assert(old(self).slot_key_at(i1) != old(self).slot_key_at(i2));
                        } else {
                            assert(old(self).slot_key_at(i1) == self.slot_key_at(i1));
                            assert(!old(self).has_key(k));
                        }
                    }
                    assert(self.slots@[n].entry_set() =~= Set::<IfaceSet>::empty().insert(ifs));
                    self.lemma_view_at(n);
                    assert forall|k2: KeyView| #[trigger]
                        old(self)@.contains_key(k2) implies self@.contains_key(k2) && self@[k2]
                        == old(self)@[k2] by {
                        let i = choose|i: int|
                            0 <= i < old(self).slots@.len() && #[trigger] old(self).slot_key_at(i)
                                == k2;
                        old(self).lemma_view_at(i);
                        self.lemma_view_at(i);
                        assert(old(self).slots@[i].entry_set() =~= self.slots@[i].entry_set());
                    }
                    assert forall|k2: KeyView| #[trigger]
                        self@.contains_key(k2) implies k2 == k || old(self)@.contains_key(k2) by {
                        let i = choose|i: int|
                            0 <= i < self.slots@.len() && #[trigger] self.slot_key_at(i) == k2;
                        if i < n {
                            assert(old(self).slots@[i] == self.slots@[i]);
                            assert(old(self).slot_key_at(i) == k2);
                            assert(old(self).has_key(k2));
                        }
                    }
                    assert(self@ =~= registry_insert(old(self)@, k, ifs).0);
                }
                Ok(())
            },
            Some(i) => {
                proof {
                    old(self).lemma_view_at(i as int);
                }
                let n = self.slots[i].entries.len();
                let mut m: usize = 0;
                while m < n
                    invariant
                        *self == *old(self),
                        old(self).wf(),
                        0 <= i < old(self).slots@.len(),
                        n == old(self).slots@[i as int].entries@.len(),
                        m <= n,
                        old(self).slot_key_at(i as int) == k,
                        k == link.key_view(),
                        ifs == link.iface_set(),
                        old(self)@.contains_key(k),
                        old(self)@[k] == old(self).slots@[i as int].entry_set(),
                        forall|m2: int|
                            0 <= m2 < m ==> !overlaps(
                                (#[trigger] old(self).slots@[i as int].entries@[m2]).iface_set(),
                                ifs,
                            ) && old(self).slots@[i as int].entries@[m2].iface_set() != ifs,
                    decreases n - m,
                {
                    if same_iface_set(&self.slots[i].entries[m].interfaces, &link.interfaces) {
                        proof {
                            assert(old(self).slots@[i as int].entries@[m as int].iface_set()
                                == ifs);
                            assert(old(self).slots@[i as int].entry_set().contains(ifs));
                            assert(old(self)@[k].contains(ifs));
                            assert(!slot_conflicts(old(self)@[k], ifs)) by {
                                if slot_conflicts(old(self)@[k], ifs) {
                                    let e = choose|e: IfaceSet|
                                        old(self)@[k].contains(e) && e != ifs && overlaps(e, ifs);
                                    let j = choose|j: int|
                                        0 <= j < old(self).slots@[i as int].entries@.len() && (
                                        #[trigger] old(
                                            self,
                                        ).slots@[i as int].entries@[j]).iface_set() == e;
                                    assert(j != m as int);
                                    assert(old(self).slots@[i as int].wf());
                                    if j < m as int {
                                        assert(!overlaps(
                                            old(self).slots@[i as int].entries@[j].iface_set(),
                                            old(
                                                self,
                                            ).slots@[i as int].entries@[m as int].iface_set(),
                                        ));
                                    } else {
                                        assert(!overlaps(
                                            old(
                                                self,
                                            ).slots@[i as int].entries@[m as int].iface_set(),
                                            old(self).slots@[i as int].entries@[j].iface_set(),
                                        ));
                                        assert(overlaps(e, ifs) == overlaps(ifs, e));
                                    }
                                }
                            }
                            assert(old(self)@[k].insert(ifs) =~= old(self)@[k]);
                            assert(old(self)@.insert(k, old(self)@[k].insert(ifs)) =~~= old(
                                self,
                            )@);
                            assert(self@ == registry_insert(old(self)@, k, ifs).0);
                        }
                        return Ok(());
                    }
                    if lists_overlap(&self.slots[i].entries[m].interfaces, &link.interfaces) {
                        proof {
                            let e = old(self).slots@[i as int].entries@[m as int].iface_set();
                            assert(old(self).slots@[i as int].entry_set().contains(e));
                            assert(e != ifs);
                            assert(slot_conflicts(old(self)@[k], ifs));
                        }
                        return Err(LinkConflict {  });
                    }
                    m += 1;
                }
                proof {
                    assert(!slot_conflicts(old(self)@[k], ifs)) by {
                        if slot_conflicts(old(self)@[k], ifs) {
                            let e = choose|e: IfaceSet|
                                old(self)@[k].contains(e) && e != ifs && overlaps(e, ifs);
                            let j = choose|j: int|
                                0 <= j < old(self).slots@[i as int].entries@.len() && (
                                #[trigger] old(self).slots@[i as int].entries@[j]).iface_set()
                                    == e;
                            assert(!overlaps(
                                old(self).slots@[i as int].entries@[j].iface_set(),
                                ifs,
                            ));
                        }
                    }
                }
                self.push_entry(i, link);
                Ok(())
            },
        }
    }

    /// Deletes the whole slot for `key`, every link in it, and tells whether
    /// a slot was there; an absent identity leaves the registry unchanged.
    pub fn remove(&mut self, key: &LinkKey) -> (r: bool)
        requires
            old(self).wf(),
        ensures
            final(self).wf(),
            final(self)@ == registry_remove(old(self)@, key@).0,
            r == registry_remove(old(self)@, key@).1,
    {
        match self.find_slot_index(key) {
            None => {
                proof {
                    assert(!old(self)@.contains_key(key@));
                    assert(old(self)@.remove(key@) =~= old(self)@);
                }
                false
            },
            Some(i) => {
                let ghost pre = *self;
                let _slot = self.slots.swap_remove(i);
                proof {
                    let iv = i as int;
                    let n = pre.slots@.len() as int;
                    assert(self.slots@.len() == n - 1);
                    assert forall|t: int| 0 <= t < n - 1 implies #[trigger] self.slots@[t] == (
                    if t == iv {
                        pre.slots@[n - 1]
                    } else {
                        pre.slots@[t]
                    }) by {}
                    assert forall|t: int|
                        0 <= t < self.slots@.len() implies (#[trigger] self.slots@[t]).wf() by {
                        if t == iv {
                            assert(pre.slots@[n - 1].wf());
                        } else {
                            assert(pre.slots@[t].wf());
                        }
                    }
                    assert forall|t1: int, t2: int|
                        0 <= t1 < t2 < self.slots@.len() implies self.slot_key_at(t1)
                        != self.slot_key_at(t2) by {
                        let f1: int = if t1 == iv { n - 1 } else { t1 };
                        let f2: int = if t2 == iv { n - 1 } else { t2 };
                        assert(self.slot_key_at(t1) == pre.slot_key_at(f1));
                        assert(self.slot_key_at(t2) == pre.slot_key_at(f2));
                        assert(f1 != f2);
                    }
                    assert forall|k2: KeyView| #[trigger]
                        self@.contains_key(k2) implies pre@.contains_key(k2) && k2 != key@
                        && self@[k2] == pre@[k2] by {
                        let t = choose|t: int|
                            0 <= t < self.slots@.len() && #[trigger] self.slot_key_at(t) == k2;
                        let f: int = if t == iv { n - 1 } else { t };
                        assert(self.slots@[t] == pre.slots@[f]);
                        assert(pre.slot_key_at(f) == k2);
                        assert(pre.has_key(k2));
                        if f != iv {
                            if f < iv {
                                assert(pre.slot_key_at(f) != pre.slot_key_at(iv));
                            } else {
                                assert(pre.slot_key_at(iv) != pre.slot_key_at(f));
                            }
                        } else {
                            assert(t == iv && iv == n - 1);
                            assert(t < n - 1);
                        }
                        self.lemma_view_at(t);
                        pre.lemma_view_at(f);
                    }
                    assert forall|k2: KeyView|
                        #[trigger] pre@.contains_key(k2) && k2 != key@ implies self@.contains_key(
                        k2,
                    ) by {
                        let t = choose|t: int|
                            0 <= t < pre.slots@.len() && #[trigger] pre.slot_key_at(t) == k2;
                        assert(t != iv);
                        if t == n - 1 {
                            assert(iv < n - 1);
                            assert(self.slots@[iv] == pre.slots@[n - 1]);
                            assert(self.slot_key_at(iv) == k2);
                        } else {
                            assert(self.slots@[t] == pre.slots@[t]);
                            assert(self.slot_key_at(t) == k2);
                        }
                    }
                    assert(self@ =~~= pre@.remove(key@));
                }
                true
            },
        }
    }

    /// The links stored from slot `s` on, in slot order.
    spec fn from_slot(self, s: int) -> Seq<Link>
        decreases self.slots@.len() - s,
    {
        if s < 0 || s >= self.slots@.len() {
            Seq::empty()
        } else {
            self.slots@[s].entries@ + self.from_slot(s + 1)
        }
    }

    /// The identity and interface list of each stored link, in slot order.
    pub closed spec fn stored_pairs(&self) -> Seq<(KeyView, Seq<Seq<char>>)> {
        link_pairs(self.from_slot(0))
    }

    /// Each link from slot `s` on is an entry the registry holds.
    proof fn lemma_member(self, s: int, q: Seq<Link>, t: int)
        requires
            self.wf(),
            0 <= s <= self.slots@.len(),
            q == self.from_slot(s),
            0 <= t < q.len(),
        ensures
            self.holds_entry(q[t].key_view(), q[t].iface_set()),
        decreases self.slots@.len() - s,
    {
        let hn = self.slots@[s].entries@.len() as int;
        if s == self.slots@.len() {
        } else if t < hn {
            assert(q[t] == self.slots@[s].entries@[t]);
            self.lemma_view_at(s);
            assert(self.slots@[s].entry_set().contains(self.slots@[s].entries@[t].iface_set()));
        } else {
            let qt = self.from_slot(s + 1);
            assert(q[t] == qt[t - hn]);
            self.lemma_member(s + 1, qt, t - hn);
        }
    }

    /// Each entry the slot walk reaches from `s` on stands somewhere among
    /// the links from slot `s` on.
    proof fn lemma_complete_point(self, s: int, q: Seq<Link>, s2: int, e: int)
        requires
            self.wf(),
            0 <= s <= self.slots@.len(),
            q == self.from_slot(s),
            s <= s2 < self.slots@.len(),
            0 <= e < self.slots@[s2].entries@.len(),
        ensures
            exists|t: int|
                0 <= t < q.len() && #[trigger] q[t] == self.slots@[s2].entries@[e],
        decreases self.slots@.len() - s,
    {
        let hn = self.slots@[s].entries@.len() as int;
        if s2 == s {
            assert(q[e] == self.slots@[s2].entries@[e]);
        } else {
            let qt = self.from_slot(s + 1);
            self.lemma_complete_point(s + 1, qt, s2, e);
            let t = choose|t: int|
                0 <= t < qt.len() && #[trigger] qt[t] == self.slots@[s2].entries@[e];
            assert(q[t + hn] == qt[t]);
        }
    }

    /// Each link from slot `s` on is the entry at some coordinates from `s`
    /// on.
    proof fn lemma_coords_point(self, s: int, q: Seq<Link>, t: int)
        requires
            self.wf(),
            0 <= s <= self.slots@.len(),
            q == self.from_slot(s),
            0 <= t < q.len(),
        ensures
            exists|s2: int, e: int|
                s <= s2 < self.slots@.len() && 0 <= e < self.slots@[s2].entries@.len() && q[t]
                    == (#[trigger] self.slots@[s2].entries@[e]),
        decreases self.slots@.len() - s,
    {
        let hn = self.slots@[s].entries@.len() as int;
        if t < hn {
            assert(q[t] == self.slots@[s].entries@[t]);
        } else {
            let qt = self.from_slot(s + 1);
            assert(q[t] == qt[t - hn]);
            self.lemma_coords_point(s + 1, qt, t - hn);
            let (s2, e): (int, int) = choose|s2: int, e: int|
                s + 1 <= s2 < self.slots@.len() && 0 <= e < self.slots@[s2].entries@.len() && qt[t
                    - hn] == (#[trigger] self.slots@[s2].entries@[e]);
            assert(q[t] == self.slots@[s2].entries@[e]);
        }
    }

    /// No two links from slot `s` on share identity and interface set.
    proof fn lemma_from_slot_distinct(self, s: int, q: Seq<Link>)
        requires
            self.wf(),
            0 <= s <= self.slots@.len(),
            q == self.from_slot(s),
        ensures
            forall|t1: int, t2: int|
                0 <= t1 < t2 < q.len() ==> !((#[trigger] q[t1]).key_view() == (
                #[trigger] q[t2]).key_view() && q[t1].iface_set() == q[t2].iface_set()),
        decreases self.slots@.len() - s,
    {
        if s < self.slots@.len() {
            let qt = self.from_slot(s + 1);
            self.lemma_from_slot_distinct(s + 1, qt);
            let hn = self.slots@[s].entries@.len() as int;
            assert forall|t1: int, t2: int| 0 <= t1 < t2 < q.len() implies !((
            #[trigger] q[t1]).key_view() == (#[trigger] q[t2]).key_view() && q[t1].iface_set()
                == q[t2].iface_set()) by {
                if t2 < hn {
                    assert(self.slots@[s].wf());
                    assert(q[t1] == self.slots@[s].entries@[t1]);
                    assert(q[t2] == self.slots@[s].entries@[t2]);
                    if q[t1].iface_set() == q[t2].iface_set() {
                        assert(self.slots@[s].entries@[t1].iface_set()
                            != self.slots@[s].entries@[t2].iface_set());
                    }
                } else if t1 >= hn {
                    assert(q[t1] == qt[t1 - hn]);
                    assert(q[t2] == qt[t2 - hn]);
                } else {
                    assert(q[t1] == self.slots@[s].entries@[t1]);
                    assert(q[t2] == qt[t2 - hn]);
                    self.lemma_coords_point(s + 1, qt, t2 - hn);
                    let (s2, e): (int, int) = choose|s2: int, e: int|
                        s + 1 <= s2 < self.slots@.len() && 0 <= e
                            < self.slots@[s2].entries@.len() && qt[t2 - hn] == (
                        #[trigger] self.slots@[s2].entries@[e]);
                    assert(q[t1].key_view() == self.slot_key_at(s));
                    assert(q[t2].key_view() == self.slot_key_at(s2));
                    assert(self.slot_key_at(s) != self.slot_key_at(s2));
                }
            }
        }
    }

    /// Copies of the entries of slot `s` from position `e` on, appended to

    /// `acc`.
    fn gather_entries(&self, s: usize, e: usize, acc: Vec<Link>) -> (r: Vec<Link>)
        requires
            self.wf(),
            s < self.slots@.len(),
            e <= self.slots@[s as int].entries@.len(),
        ensures
            link_pairs(r@) == link_pairs(acc@) + link_pairs(
                self.slots@[s as int].entries@.skip(e as int),
            ),
        decreases self.slots@[s as int].entries@.len() - e,
    {
        if e == self.slots[s].entries.len() {
            proof {
                assert(self.slots@[s as int].entries@.skip(e as int) =~= Seq::empty());
                assert(link_pairs(acc@) =~= link_pairs(acc@) + link_pairs(
                    self.slots@[s as int].entries@.skip(e as int),
                ));
            }
            return acc;
        }
        let mut acc2 = acc;
        let ghost accv = acc2@;
        acc2.push(self.slots[s].entries[e].clone());
        proof {
            let tail = self.slots@[s as int].entries@.skip(e as int);
            let tail2 = self.slots@[s as int].entries@.skip(e as int + 1);
            assert(tail =~= seq![self.slots@[s as int].entries@[e as int]] + tail2);
            assert(link_pairs(acc2@) =~= link_pairs(accv) + link_pairs(
                seq![self.slots@[s as int].entries@[e as int]],
            ));
            assert(link_pairs(accv) + link_pairs(tail) =~= (link_pairs(accv)
                + link_pairs(seq![self.slots@[s as int].entries@[e as int]]))
                + link_pairs(tail2));
        }
        self.gather_entries(s, e + 1, acc2)
    }

    /// Copies of the links of every slot from `s` on, appended to `acc`.
    fn gather_slots(&self, s: usize, acc: Vec<Link>) -> (r: Vec<Link>)
        requires
            self.wf(),
            s <= self.slots@.len(),
        ensures
            link_pairs(r@) == link_pairs(acc@) + link_pairs(
                self.from_slot(s as int),
            ),
        decreases self.slots@.len() - s,
    {
        if s == self.slots.len() {
            proof {
                assert(self.from_slot(s as int) =~= Seq::empty());
                assert(link_pairs(acc@) =~= link_pairs(acc@) + link_pairs(
                    self.from_slot(s as int),
                ));
            }
            return acc;
        }
        let acc2 = self.gather_entries(s, 0, acc);
        let ghost accv = acc@;
        let r = self.gather_slots(s + 1, acc2);
        proof {
            assert(self.slots@[s as int].entries@.skip(0) =~= self.slots@[s as int].entries@);
            assert(self.from_slot(s as int) == self.slots@[s as int].entries@ + self.from_slot(
                s as int + 1,
            ));
            assert(link_pairs(self.from_slot(s as int)) =~= link_pairs(
                self.slots@[s as int].entries@,
            ) + link_pairs(self.from_slot(s as int + 1)));
            assert(link_pairs(r@) =~= link_pairs(accv) + link_pairs(
                self.from_slot(s as int),
            ));
        }
        r
    }

    /// Every stored link, each exactly once, in no promised order: the
    /// returned links carry exactly the registry's identity / interface-list
    /// pairs, every one of them is stored, and no two of them share identity
    /// and interface set.
    #[verifier::rlimit(100)]
    pub fn iter(&self) -> (r: Vec<Link>)
        requires
            self.wf(),
        ensures
            link_pairs(r@) == self.stored_pairs(),
            forall|t: int|
                0 <= t < r@.len() ==> self.holds_entry(
                    (#[trigger] r@[t]).key_view(),
                    r@[t].iface_set(),
                ),
            forall|t1: int, t2: int|
                0 <= t1 < t2 < r@.len() ==> !((#[trigger] r@[t1]).key_view() == (
                #[trigger] r@[t2]).key_view() && r@[t1].iface_set() == r@[t2].iface_set()),
    {
        let r = self.gather_slots(0, Vec::new());
        proof {
            let q = self.from_slot(0);
            let rp = link_pairs(r@);
            let qp = link_pairs(q);
            assert(rp =~= link_pairs(Seq::empty()) + qp);
            assert(rp =~= qp);
            assert(r@.len() == q.len());
            self.lemma_from_slot_distinct(0, q);
            assert forall|t: int| 0 <= t < r@.len() implies self.holds_entry(
                (#[trigger] r@[t]).key_view(),
                r@[t].iface_set(),
            ) by {
                assert(rp[t] == qp[t]);
                assert(r@[t].key_view() == q[t].key_view() && r@[t].ifaces() == q[t].ifaces());
                assert(r@[t].iface_set() == q[t].iface_set());
                self.lemma_member(0, q, t);
            }
            assert forall|t1: int, t2: int|
                0 <= t1 < t2 < r@.len() implies !((#[trigger] r@[t1]).key_view() == (
            #[trigger] r@[t2]).key_view() && r@[t1].iface_set() == r@[t2].iface_set()) by {
                assert(rp[t1] == qp[t1]);
                assert(rp[t2] == qp[t2]);
                assert(r@[t1].key_view() == q[t1].key_view() && r@[t1].ifaces() == q[t1].ifaces());
                assert(r@[t2].key_view() == q[t2].key_view() && r@[t2].ifaces() == q[t2].ifaces());
                assert(r@[t1].iface_set() == q[t1].iface_set());
                assert(r@[t2].iface_set() == q[t2].iface_set());
            }
        }
        r
    }

    /// Every link the registry stores appears among its stored pairs: a
    /// stored identity and interface set is reported at some position, under
    /// the declared list it was inserted with.
    pub proof fn lemma_stored_entry(&self, k: KeyView, ifs: IfaceSet)
        requires
            self.wf(),
            self.holds_entry(k, ifs),
        ensures
            exists|t: int|
                0 <= t < self.stored_pairs().len() && (#[trigger] self.stored_pairs()[t]).0 == k
                    && set_of_ifaces(self.stored_pairs()[t].1) == ifs,
    {
        let q = self.from_slot(0);
        let s2 = choose|s2: int|
            0 <= s2 < self.slots@.len() && #[trigger] self.slot_key_at(s2) == k;
        self.lemma_view_at(s2);
        assert(self.slots@[s2].entry_set().contains(ifs));
        let e = choose|e: int|
            0 <= e < self.slots@[s2].entries@.len() && (
            #[trigger] self.slots@[s2].entries@[e]).iface_set() == ifs;
        self.lemma_complete_point(0, q, s2, e);
        let t = choose|t: int| 0 <= t < q.len() && #[trigger] q[t] == self.slots@[s2].entries@[e];
        assert(self.stored_pairs()[t] == (k, self.slots@[s2].entries@[e].ifaces()));
        assert(set_of_ifaces(self.stored_pairs()[t].1) == ifs);
    }
}

/// Two different links that share a slot identity and wire at least one
/// interface in common cannot both be stored: inserting both into an empty
/// registry, in either order, accepts the first and rejects the second,
/// leaving exactly the first link's slot.
pub proof fn lemma_overlapping_links_conflict(k: KeyView, s1: IfaceSet, s2: IfaceSet)
    requires
        overlaps(s1, s2),
        s1 != s2,
    ensures
        ({
            let m0 = Map::<KeyView, Set<IfaceSet>>::empty();
            let (m1, ok1) = registry_insert(m0, k, s1);
            let (m2, ok2) = registry_insert(m1, k, s2);
            ok1 && !ok2 && m2 == m1 && m1 == m0.insert(k, Set::<IfaceSet>::empty().insert(s1))
        }),
{
    let m0 = Map::<KeyView, Set<IfaceSet>>::empty();
    let m1 = registry_insert(m0, k, s1).0;
    assert(m1[k].contains(s1));
    assert(slot_conflicts(m1[k], s2));
}

/// Two links that share a slot identity but wire disjoint interface sets are
/// both stored: inserting both into an empty registry accepts both, and the
/// slot then holds both interface sets.
pub proof fn lemma_disjoint_links_coexist(k: KeyView, s1: IfaceSet, s2: IfaceSet)
    requires
        !overlaps(s1, s2),
    ensures
        ({
            let m0 = Map::<KeyView, Set<IfaceSet>>::empty();
            let (m1, ok1) = registry_insert(m0, k, s1);
            let (m2, ok2) = registry_insert(m1, k, s2);
            ok1 && ok2 && m2.contains_key(k) && m2[k].contains(s1) && m2[k].contains(s2)
        }),
{
    let m0 = Map::<KeyView, Set<IfaceSet>>::empty();
    let m1 = registry_insert(m0, k, s1).0;
    assert(m1[k].contains(s1));
    assert(!slot_conflicts(m1[k], s2)) by {
        if slot_conflicts(m1[k], s2) {
            let e = choose|e: IfaceSet| m1[k].contains(e) && e != s2 && overlaps(e, s2);
            assert(e == s1);
        }
    }
}

/// Re-inserting a link identical in identity and interface set to one
/// already accepted is a successful no-op: the second insertion is accepted
/// and the registry after it is the registry after the first.
pub proof fn lemma_reinsert_identical_noop(m: RegistryView, k: KeyView, s: IfaceSet)
    requires
        registry_insert(m, k, s).1,
    ensures
        registry_insert(registry_insert(m, k, s).0, k, s).1,
        registry_insert(registry_insert(m, k, s).0, k, s).0 == registry_insert(m, k, s).0,
{
    let m1 = registry_insert(m, k, s).0;
    assert(m1.contains_key(k));
    assert(m1[k].contains(s));
    assert(!slot_conflicts(m1[k], s)) by {
        if slot_conflicts(m1[k], s) {
            let e = choose|e: IfaceSet| m1[k].contains(e) && e != s && overlaps(e, s);
            if m.contains_key(k) {
                assert(m[k].contains(e));
                assert(!slot_conflicts(m[k], s));
            } else {
                assert(m1[k] == Set::<IfaceSet>::empty().insert(s));
                assert(e == s);
            }
        }
    }
    assert(m1[k].insert(s) =~= m1[k]);
    assert(m1.insert(k, m1[k].insert(s)) =~~= m1);
}

/// Removing a slot identity deletes every link stored under it, leaves every
/// other slot as it was, and answers whether the slot existed; removing an
/// absent identity changes nothing.
pub proof fn lemma_remove_clears_slot(m: RegistryView, k: KeyView)
    ensures
        !registry_remove(m, k).0.contains_key(k),
        forall|k2: KeyView|
            k2 != k ==> (#[trigger] registry_remove(m, k).0.contains_key(k2)) == m.contains_key(
                k2,
            ),
        forall|k2: KeyView|
            k2 != k && m.contains_key(k2) ==> (#[trigger] registry_remove(m, k).0[k2]) == m[k2],
        registry_remove(m, k).1 == m.contains_key(k),
        !m.contains_key(k) ==> registry_remove(m, k).0 == m,
{
    if !m.contains_key(k) {
        assert(m.remove(k) =~= m);
    }
}

} // verus!
