//! Monitored addresses, kept in address order, each with a flag that says
//! whether a reply from it was seen in the current round.
use vstd::prelude::*;

verus! {

/// An IPv4 or IPv6 address, as its numeric value.
#[derive(Clone, Copy, PartialEq, Eq, Structural, Debug, Hash, PartialOrd, Ord)]
pub enum Address {
    V4(u32),
    V6(u128),
}

impl Address {
    /// Position in address order: every IPv4 address before every IPv6 one,
    /// each family in numeric order.
    pub open spec fn rank(self) -> int {
        match self {
            Address::V4(x) => x as int,
            Address::V6(x) => 0x1_0000_0000 + x as int,
        }
    }

    pub fn is_ipv4(&self) -> (r: bool)
        ensures
            r == (*self is V4),
    {
        match self {
            Address::V4(_) => true,
            Address::V6(_) => false,
        }
    }

    pub fn is_ipv6(&self) -> (r: bool)
        ensures
            r == (*self is V6),
    {
        match self {
            Address::V4(_) => false,
            Address::V6(_) => true,
        }
    }

    /// True when `self` comes strictly before `other` in address order.
    pub fn precedes(&self, other: &Address) -> (r: bool)
        ensures
            r == (self.rank() < other.rank()),
    {
        match (self, other) {
            (Address::V4(x), Address::V4(y)) => *x < *y,
            (Address::V4(_), Address::V6(_)) => true,
            (Address::V6(_), Address::V4(_)) => false,
            (Address::V6(x), Address::V6(y)) => *x < *y,
        }
    }
}

/// The address that a textual IPv4 or IPv6 literal denotes, as std's
/// `IpAddr` parser reads it, or `None` where the text is not one.
pub uninterp spec fn parsed_ip(s: Seq<char>) -> Option<Address>;

/// Relies on `FromStr` for `core::net::IpAddr`: its result depends on the
/// text alone.
#[verifier::external_body]
pub(crate) fn parse_ip(s: &str) -> (r: Option<Address>)
    ensures
        r == parsed_ip(s@),
{
    match s.parse::<core::net::IpAddr>() {
        Ok(core::net::IpAddr::V4(a)) => Some(Address::V4(u32::from(a))),
        Ok(core::net::IpAddr::V6(a)) => Some(Address::V6(u128::from(a))),
        Err(_) => None,
    }
}

/// Two addresses with the same rank are the same address.
pub proof fn lemma_rank_injective(a: Address, b: Address)
    ensures
        a.rank() == b.rank() <==> a == b,
{
}

/// Entries in strictly increasing address order (so no address twice).
pub open spec fn sorted(s: Seq<(Address, bool)>) -> bool {
    forall|i: int, j: int| 0 <= i < j < s.len() ==> s[i].0.rank() < s[j].0.rank()
}

pub open spec fn holds(s: Seq<(Address, bool)>, a: Address) -> bool {
    exists|i: int| 0 <= i < s.len() && s[i].0 == a
}

pub open spec fn index_of(s: Seq<(Address, bool)>, a: Address) -> int {
    choose|i: int| 0 <= i < s.len() && s[i].0 == a
}

/// The entries as a map from address to its seen flag.
pub open spec fn as_map(s: Seq<(Address, bool)>) -> Map<Address, bool> {
    Map::new(|a: Address| holds(s, a), |a: Address| s[index_of(s, a)].1)
}

/// The same entries with every seen flag cleared.
pub open spec fn cleared(s: Seq<(Address, bool)>) -> Seq<(Address, bool)> {
    s.map_values(|e: (Address, bool)| (e.0, false))
}

/// The addresses of the entries, in order.
pub open spec fn addresses_of(s: Seq<(Address, bool)>) -> Seq<Address> {
    s.map_values(|e: (Address, bool)| e.0)
}

/// The addresses whose seen flag is clear, in order.
pub open spec fn unseen_of(s: Seq<(Address, bool)>) -> Seq<Address>
    decreases s.len(),
{
    if s.len() == 0 {
        Seq::empty()
    } else {
        let p = unseen_of(s.drop_last());
        if s.last().1 {
            p
        } else {
            p.push(s.last().0)
        }
    }
}

proof fn lemma_index_of(s: Seq<(Address, bool)>, i: int)
    requires
        sorted(s),
        0 <= i < s.len(),
    ensures
        holds(s, s[i].0),
        index_of(s, s[i].0) == i,
{
    let a = s[i].0;
    assert(holds(s, a));
    let j = index_of(s, a);
    if j != i {
        lemma_rank_injective(s[j].0, a);
    }
}

proof fn lemma_drop_last_map(s: Seq<(Address, bool)>)
    requires
        sorted(s),
        s.len() > 0,
    ensures
        sorted(s.drop_last()),
        as_map(s.drop_last()) == as_map(s).remove(s.last().0),
{
    let d = s.drop_last();
    let k = s.last().0;
    assert forall|b: Address| #[trigger] holds(d, b) == (holds(s, b) && b != k) by {
        if holds(d, b) {
            let i = index_of(d, b);
            assert(s[i].0 == b);
            assert(s[i].0.rank() < k.rank());
        }
        if holds(s, b) && b != k {
            let i = index_of(s, b);
            assert(i != s.len() - 1);
            assert(d[i].0 == b);
        }
    }
    assert forall|b: Address| #[trigger] holds(d, b) implies d[index_of(d, b)].1 == s[index_of(
        s,
        b,
    )].1 by {
        let i = index_of(d, b);
        lemma_index_of(d, i);
        assert(s[i] == d[i]);
        lemma_index_of(s, i);
    }
    assert(as_map(d) =~= as_map(s).remove(k));
}

/// Entries in address order are determined by the map they stand for.
pub proof fn lemma_entries_determined(s1: Seq<(Address, bool)>, s2: Seq<(Address, bool)>)
    requires
        sorted(s1),
        sorted(s2),
        as_map(s1) == as_map(s2),
    ensures
        s1 == s2,
    decreases s1.len(),
{
    if s1.len() == 0 {
        if s2.len() > 0 {
            assert(as_map(s2).contains_key(s2[0].0));
        }
        assert(s1 =~= s2);
    } else {
        assert(as_map(s1).contains_key(s1.last().0));
        assert(s2.len() > 0);
        let k1 = s1.last().0;
        let k2 = s2.last().0;
        assert(as_map(s2).contains_key(k1));
        assert(as_map(s1).contains_key(k2));
        let j2 = index_of(s2, k1);
        let j1 = index_of(s1, k2);
        assert(k1.rank() <= k2.rank()) by {
            if j2 < s2.len() - 1 {
                assert(s2[j2].0.rank() < s2[s2.len() - 1].0.rank());
            }
        }
        assert(k2.rank() <= k1.rank()) by {
            if j1 < s1.len() - 1 {
                assert(s1[j1].0.rank() < s1[s1.len() - 1].0.rank());
            }
        }
        lemma_rank_injective(k1, k2);
        lemma_index_of(s1, s1.len() - 1);
        lemma_index_of(s2, s2.len() - 1);
        assert(as_map(s1)[k1] == s1.last().1);
        assert(as_map(s2)[k2] == s2.last().1);
        lemma_drop_last_map(s1);
        lemma_drop_last_map(s2);
        lemma_entries_determined(s1.drop_last(), s2.drop_last());
        assert(s1 =~= s1.drop_last().push(s1.last()));
        assert(s2 =~= s2.drop_last().push(s2.last()));
    }
}

/// Clearing every flag leaves every address unseen: all of them, in order.
pub proof fn lemma_cleared_all_unseen(s: Seq<(Address, bool)>)
    ensures
        unseen_of(cleared(s)) == addresses_of(s),
    decreases s.len(),
{
    if s.len() > 0 {
        lemma_cleared_all_unseen(s.drop_last());
        assert(cleared(s).drop_last() =~= cleared(s.drop_last()));
        assert(addresses_of(s) =~= addresses_of(s.drop_last()).push(s.last().0));
    } else {
        assert(addresses_of(s) =~= Seq::empty());
    }
}

/// The monitored addresses and their seen flags.
pub struct Registry {
    entries: Vec<(Address, bool)>,
}

impl View for Registry {
    type V = Map<Address, bool>;

    open spec fn view(&self) -> Map<Address, bool> {
        as_map(self.entries())
    }
}

impl Registry {
    /// The entries in address order.
    pub closed spec fn entries(&self) -> Seq<(Address, bool)> {
        self.entries@
    }

    pub open spec fn wf(&self) -> bool {
        sorted(self.entries())
    }

    pub fn new() -> (r: Registry)
        ensures
            r.wf(),
            r.entries() == Seq::<(Address, bool)>::empty(),
            r@ == Map::<Address, bool>::empty(),
    {
        let r = Registry { entries: Vec::new() };
        assert(r@ =~= Map::<Address, bool>::empty());
        r
    }

    pub fn len(&self) -> (r: usize)
        ensures
            r == self.entries().len(),
    {
        self.entries.len()
    }

    /// Adds `a` with its seen flag set; an address already present keeps its
    /// place and has its flag set.
    pub fn add(&mut self, a: Address)
        requires
            old(self).wf(),
        ensures
            final(self).wf(),
            final(self)@ == old(self)@.insert(a, true),
    {
        let ghost s = self.entries@;
        let mut pos: usize = 0;
        while pos < self.entries.len() && self.entries[pos].0.precedes(&a)
            invariant
                self.entries@ == s,
                sorted(s),
                pos <= s.len(),
                forall|k: int| 0 <= k < pos ==> s[k].0.rank() < a.rank(),
            decreases s.len() - pos,
        {
            pos = pos + 1;
        }
        if pos < self.entries.len() && self.entries[pos].0 == a {
            self.entries.set(pos, (a, true));
            proof {
                let t = self.entries@;
                assert(sorted(t));
                assert forall|b: Address| #[trigger] holds(t, b) == holds(s, b) by {
                    if holds(s, b) {
                        let i = index_of(s, b);
                        assert(t[i].0 == b);
                    }
                    if holds(t, b) {
                        let i = index_of(t, b);
                        assert(s[i].0 == b);
                    }
                }
                assert forall|b: Address| #[trigger] holds(t, b) implies t[index_of(t, b)].1
                    == (if b == a { true } else { s[index_of(s, b)].1 }) by {
                    let i = index_of(t, b);
                    lemma_index_of(t, i);
                    lemma_index_of(s, i);
                }
                assert(self@ =~= as_map(s).insert(a, true));
            }
        } else {
            proof {
                if pos < s.len() {
                    lemma_rank_injective(s[pos as int].0, a);
                    assert(s[pos as int].0.rank() > a.rank());
                }
            }
            self.entries.insert(pos, (a, true));
            proof {
                let t = self.entries@;
                assert forall|i: int, j: int| 0 <= i < j < t.len() implies t[i].0.rank()
                    < t[j].0.rank() by {
                    if j < pos {
                    } else if j == pos {
                    } else if i < pos {
                        assert(t[j] == s[j - 1]);
                    } else if i == pos {
                        assert(t[j] == s[j - 1]);
                        assert(s[pos as int].0.rank() <= s[j - 1].0.rank());
                    } else {
                        assert(t[i] == s[i - 1]);
                        assert(t[j] == s[j - 1]);
                    }
                }
                assert(sorted(t));
                assert forall|b: Address| #[trigger] holds(t, b) == (holds(s, b) || b == a) by {
                    if holds(s, b) {
                        let i = index_of(s, b);
                        if i < pos {
                            assert(t[i].0 == b);
                        } else {
                            assert(t[i + 1].0 == b);
                        }
                    }
                    if b == a {
                        assert(t[pos as int].0 == a);
                    }
                    if holds(t, b) && b != a {
                        let i = index_of(t, b);
                        if i < pos {
                            assert(s[i].0 == b);
                        } else {
                            assert(i != pos);
                            assert(s[i - 1].0 == b);
                        }
                    }
                }
                assert forall|b: Address| #[trigger] holds(t, b) implies t[index_of(t, b)].1
                    == (if b == a { true } else { s[index_of(s, b)].1 }) by {
                    let i = index_of(t, b);
                    lemma_index_of(t, i);
                    if b != a {
                        if i < pos {
                            lemma_index_of(s, i);
                        } else {
                            lemma_index_of(s, i - 1);
                        }
                    }
                }
                assert(self@ =~= as_map(s).insert(a, true));
            }
        }
    }
    /// Position of `a` among the entries, if present.
    fn find(&self, a: &Address) -> (r: Option<usize>)
        requires
            self.wf(),
        ensures
            r matches Some(i) ==> i < self.entries().len() && self.entries()[i as int].0 == *a
                && index_of(self.entries(), *a) == i,
            r is None ==> !holds(self.entries(), *a),
    {
        let mut i: usize = 0;
        while i < self.entries.len()
            invariant
                self.wf(),
                i <= self.entries@.len(),
                forall|k: int| 0 <= k < i ==> self.entries@[k].0 != *a,
            decreases self.entries@.len() - i,
        {
            if self.entries[i].0 == *a {
                proof {
                    lemma_index_of(self.entries@, i as int);
                }
                return Some(i);
            }
            i = i + 1;
        }
        None
    }

    /// True when `a` is monitored.
    pub fn contains(&self, a: &Address) -> (r: bool)
        requires
            self.wf(),
        ensures
            r == self@.contains_key(*a),
    {
        self.find(a).is_some()
    }

    /// Stops monitoring `a`; a no-op where it is absent.
    pub fn remove(&mut self, a: &Address)
        requires
            old(self).wf(),
        ensures
            final(self).wf(),
            final(self)@ == old(self)@.remove(*a),
    {
        let ghost s = self.entries@;
        match self.find(a) {
            None => {
                assert(self@ =~= as_map(s).remove(*a));
            },
            Some(pos) => {
                self.entries.remove(pos);
                proof {
                    let t = self.entries@;
                    assert forall|i: int, j: int| 0 <= i < j < t.len() implies t[i].0.rank()
                        < t[j].0.rank() by {
                        if j < pos {
                        } else if i < pos {
                            assert(t[j] == s[j + 1]);
                        } else {
                            assert(t[i] == s[i + 1]);
                            assert(t[j] == s[j + 1]);
                        }
                    }
                    assert forall|b: Address| #[trigger] holds(t, b) == (holds(s, b) && b != *a) by {
                        if holds(s, b) && b != *a {
                            let i = index_of(s, b);
                            if i < pos {
                                assert(t[i].0 == b);
                            } else {
                                assert(t[i - 1].0 == b);
                            }
                        }
                        if holds(t, b) {
                            let i = index_of(t, b);
                            if i < pos {
                                assert(s[i].0 == b);
                                lemma_index_of(s, i);
                            } else {
                                assert(s[i + 1].0 == b);
                                lemma_index_of(s, i + 1);
                            }
                        }
                    }
                    assert forall|b: Address| #[trigger] holds(t, b) implies t[index_of(t, b)].1
                        == s[index_of(s, b)].1 by {
                        let i = index_of(t, b);
                        lemma_index_of(t, i);
                        if i < pos {
                            lemma_index_of(s, i);
                        } else {
                            lemma_index_of(s, i + 1);
                        }
                    }
                    assert(self@ =~= as_map(s).remove(*a));
                }
            },
        }
    }

    /// Clears every seen flag, keeping the addresses and their order.
    pub fn reset_seen(&mut self)
        requires
            old(self).wf(),
        ensures
            final(self).wf(),
            final(self).entries() == cleared(old(self).entries()),
    {
        let ghost s = self.entries@;
        let mut i: usize = 0;
        while i < self.entries.len()
            invariant
                self.entries@.len() == s.len(),
                i <= s.len(),
                forall|k: int| 0 <= k < i ==> self.entries@[k] == (s[k].0, false),
                forall|k: int| i <= k < s.len() ==> self.entries@[k] == s[k],
            decreases s.len() - i,
        {
            let a = self.entries[i].0;
            self.entries.set(i, (a, false));
            i = i + 1;
        }
        assert(self.entries@ =~= cleared(s));
    }

    /// Sets the seen flag of `a`; a no-op where `a` is not monitored.
    pub fn mark_seen(&mut self, a: &Address)
        requires
            old(self).wf(),
        ensures
            final(self).wf(),
            old(self)@.contains_key(*a) ==> final(self).entries() == old(self).entries().update(
                index_of(old(self).entries(), *a),
                (*a, true),
            ),
            old(self)@.contains_key(*a) ==> final(self)@ == old(self)@.insert(*a, true),
            !old(self)@.contains_key(*a) ==> *final(self) == *old(self),
    {
        let ghost s = self.entries@;
        if let Some(pos) = self.find(a) {
            self.entries.set(pos, (*a, true));
            proof {
                let t = self.entries@;
                assert(sorted(t));
                assert forall|b: Address| #[trigger] holds(t, b) == holds(s, b) by {
                    if holds(s, b) {
                        let i = index_of(s, b);
                        assert(t[i].0 == b);
                    }
                    if holds(t, b) {
                        let i = index_of(t, b);
                        assert(s[i].0 == b);
                    }
                }
                assert forall|b: Address| #[trigger] holds(t, b) implies t[index_of(t, b)].1
                    == (if b == *a { true } else { s[index_of(s, b)].1 }) by {
                    let i = index_of(t, b);
                    lemma_index_of(t, i);
                    lemma_index_of(s, i);
                }
                assert(self@ =~= as_map(s).insert(*a, true));
            }
        }
    }

    /// The monitored addresses, in address order.
    pub fn addresses(&self) -> (r: Vec<Address>)
        ensures
            r@ == addresses_of(self.entries()),
    {
        let mut r: Vec<Address> = Vec::new();
        let mut i: usize = 0;
        while i < self.entries.len()
            invariant
                i <= self.entries@.len(),
                r@ == addresses_of(self.entries@.take(i as int)),
            decreases self.entries@.len() - i,
        {
            r.push(self.entries[i].0);
            proof {
                assert(addresses_of(self.entries@.take(i + 1)) =~= addresses_of(
                    self.entries@.take(i as int),
                ).push(self.entries@[i as int].0));
            }
            i = i + 1;
        }
        assert(self.entries@.take(i as int) =~= self.entries@);
        r
    }

    /// The addresses whose seen flag is clear, in address order.
    pub fn unseen(&self) -> (r: Vec<Address>)
        ensures
            r@ == unseen_of(self.entries()),
    {
        let mut r: Vec<Address> = Vec::new();
        let mut i: usize = 0;
        while i < self.entries.len()
            invariant
                i <= self.entries@.len(),
                r@ == unseen_of(self.entries@.take(i as int)),
            decreases self.entries@.len() - i,
        {
            proof {
                assert(self.entries@.take(i + 1).drop_last() =~= self.entries@.take(i as int));
            }
            if !self.entries[i].1 {
                r.push(self.entries[i].0);
            }
            i = i + 1;
        }
        assert(self.entries@.take(i as int) =~= self.entries@);
        r
    }
}

} // verus!
