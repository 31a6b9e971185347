//! The keyed registry: keys and descriptors kept in lock-step by position.
use vstd::prelude::*;
use vstd::std_specs::cmp::PartialEqSpec;

use crate::descriptor::Descriptor;
use crate::events::Events;

verus! {

broadcast use Descriptor::group_updates;

/// Entry `i` of `s` carries a key equal to `key`.
pub open spec fn matches_at<K: PartialEq>(s: Seq<(K, Descriptor)>, key: K, i: int) -> bool {
    0 <= i < s.len() && s[i].0.eq_spec(&key)
}

/// Entry `i` is the first one of `s` whose key equals `key`.
pub open spec fn first_match<K: PartialEq>(s: Seq<(K, Descriptor)>, key: K, i: int) -> bool {
    &&& matches_at(s, key, i)
    &&& forall|j: int| 0 <= j < i ==> !matches_at(s, key, j)
}

/// Some entry of `s` carries a key equal to `key`.
pub open spec fn has_key<K: PartialEq>(s: Seq<(K, Descriptor)>, key: K) -> bool {
    exists|i: int| matches_at(s, key, i)
}

/// The position of the first entry of `s` whose key equals `key`, if any.
pub open spec fn position_of<K: PartialEq>(s: Seq<(K, Descriptor)>, key: K) -> int
    recommends
        has_key(s, key),
{
    choose|i: int| first_match(s, key, i)
}

/// `s` after removing its first entry keyed by `key`: the last entry takes its place.
pub open spec fn unregistered<K: PartialEq>(s: Seq<(K, Descriptor)>, key: K) -> Seq<
    (K, Descriptor),
> {
    if has_key(s, key) {
        let i = position_of(s, key);
        s.update(i, s.last()).drop_last()
    } else {
        s
    }
}

/// `s` after replacing the events asked for by its first entry keyed by `key`.
pub open spec fn interest_set<K: PartialEq>(s: Seq<(K, Descriptor)>, key: K, events: Events) -> Seq<
    (K, Descriptor),
> {
    if has_key(s, key) {
        let i = position_of(s, key);
        s.update(i, (s[i].0, s[i].1.with_events(events)))
    } else {
        s
    }
}

/// `s` with the reported events of entry `i` set to `revents[i]`, or to nothing
/// where `revents` is shorter.
pub open spec fn with_readiness<K>(s: Seq<(K, Descriptor)>, revents: Seq<Events>) -> Seq<
    (K, Descriptor),
> {
    Seq::new(
        s.len(),
        |i: int| (s[i].0, s[i].1.with_revents(if i < revents.len() { revents[i] } else { 0 })),
    )
}

/// A first match is unique, so it is the one that `position_of` picks.
pub proof fn lemma_first_match_unique<K: PartialEq>(s: Seq<(K, Descriptor)>, key: K, i: int)
    requires
        first_match(s, key, i),
    ensures
        has_key(s, key),
        position_of(s, key) == i,
{
    let j = position_of(s, key);
    assert(first_match(s, key, j));
    if j < i {
        assert(!matches_at(s, key, j));
    } else if i < j {
        assert(!matches_at(s, key, i));
    }
}

/// Where some entry has the key, there is a first one.
proof fn lemma_first_match_exists<K: PartialEq>(s: Seq<(K, Descriptor)>, key: K, k: int)
    requires
        matches_at(s, key, k),
    ensures
        exists|i: int| first_match(s, key, i),
    decreases k,
{
    if exists|j: int| 0 <= j < k && matches_at(s, key, j) {
        let j = choose|j: int| 0 <= j < k && matches_at(s, key, j);
        lemma_first_match_exists(s, key, j);
    } else {
        assert(first_match(s, key, k));
    }
}

/// Where some entry has the key, `position_of` is the first such entry.
pub broadcast proof fn lemma_position_of<K: PartialEq>(s: Seq<(K, Descriptor)>, key: K)
    requires
        has_key(s, key),
    ensures
        first_match(s, key, #[trigger] position_of(s, key)),
{
    let k = choose|k: int| matches_at(s, key, k);
    lemma_first_match_exists(s, key, k);
}

/// Registered descriptors, each under a key chosen by the caller.
///
/// Positions change on removal, which moves the last entry into the gap.
pub struct Descriptors<K> {
    index: Vec<K>,
    list: Vec<Descriptor>,
}

impl<K> View for Descriptors<K> {
    type V = Seq<(K, Descriptor)>;

    /// The entries, in order, each with its key.
    closed spec fn view(&self) -> Seq<(K, Descriptor)> {
        Seq::new(self.list@.len(), |i: int| (self.index@[i], self.list@[i]))
    }
}

impl<K: PartialEq + Clone> Descriptors<K> {
    /// Keys and descriptors stand in lock-step.
    pub closed spec fn wf(&self) -> bool {
        self.index@.len() == self.list@.len()
    }

    /// An empty registry.
    pub fn new() -> (r: Self)
        ensures
            r.wf(),
            r@ == Seq::<(K, Descriptor)>::empty(),
    {
        let r = Descriptors { index: Vec::new(), list: Vec::new() };
        assert(r@ =~= Seq::<(K, Descriptor)>::empty());
        r
    }

    /// An empty registry with room for `cap` entries.
    pub fn with_capacity(cap: usize) -> (r: Self)
        ensures
            r.wf(),
            r@ == Seq::<(K, Descriptor)>::empty(),
    {
        let r = Descriptors { index: Vec::with_capacity(cap), list: Vec::with_capacity(cap) };
        assert(r@ =~= Seq::<(K, Descriptor)>::empty());
        r
    }

    /// The number of entries.
    pub fn len(&self) -> (r: usize)
        requires
            self.wf(),
        ensures
            r == self@.len(),
    {
        self.list.len()
    }

    /// The descriptors, in order.
    pub fn descriptors(&self) -> (r: &Vec<Descriptor>)
        requires
            self.wf(),
        ensures
            r@.len() == self@.len(),
            forall|i: int| 0 <= i < r@.len() ==> r@[i] == #[trigger] self@[i].1,
    {
        &self.list
    }

    /// The keys, in order.
    pub fn keys(&self) -> (r: &Vec<K>)
        requires
            self.wf(),
        ensures
            r@.len() == self@.len(),
            forall|i: int| 0 <= i < r@.len() ==> r@[i] == #[trigger] self@[i].0,
    {
        &self.index
    }

    /// Appends `descriptor` under `key`.
    pub fn insert(&mut self, key: K, descriptor: Descriptor)
        requires
            old(self).wf(),
        ensures
            final(self).wf(),
            final(self)@ == old(self)@.push((key, descriptor)),
    {
        self.index.push(key);
        self.list.push(descriptor);
        assert(self@ =~= old(self)@.push((key, descriptor)));
    }

    /// Registers the endpoint with native handle `fd` under `key`, asking for `events`.
    ///
    /// Keys are not checked for uniqueness: where two entries share a key, both
    /// fire, and lookups and removal by that key reach the first of them.
    pub fn register(&mut self, key: K, fd: i32, events: Events)
        requires
            old(self).wf(),
        ensures
            final(self).wf(),
            final(self)@.len() == old(self)@.len() + 1,
            final(self)@.drop_last() == old(self)@,
            final(self)@.last().0 == key,
            Descriptor::is_fresh(final(self)@.last().1, fd, events, false),
    {
        self.insert(key, Descriptor::new(fd, events));
        assert(self@.drop_last() =~= old(self)@);
    }

    /// Registers the reading half of a waker, with native handle `fd`, under `key`.
    pub fn register_waker(&mut self, key: K, fd: i32)
        requires
            old(self).wf(),
        ensures
            final(self).wf(),
            final(self)@.len() == old(self)@.len() + 1,
            final(self)@.drop_last() == old(self)@,
            final(self)@.last().0 == key,
            Descriptor::is_fresh(final(self)@.last().1, fd, crate::events::READ, true),
    {
        self.insert(key, Descriptor::waker(fd));
        assert(self@.drop_last() =~= old(self)@);
    }

    /// The position of the first entry keyed by `key`, if any.
    fn position(&self, key: &K) -> (r: Option<usize>)
        requires
            self.wf(),
        ensures
            K::obeys_eq_spec() ==> match r {
                Some(i) => first_match(self@, *key, i as int),
                None => !has_key(self@, *key),
            },
            r matches Some(i) ==> i < self@.len(),
    {
        let mut i: usize = 0;
        while i < self.index.len()
            invariant
                self.index@.len() == self.list@.len(),
                i <= self.index@.len(),
                K::obeys_eq_spec() ==> forall|j: int|
                    0 <= j < i ==> !matches_at(self@, *key, j),
            decreases self.index@.len() - i,
        {
            if self.index[i] == *key {
                return Some(i);
            }
            i = i + 1;
        }
        None
    }

    /// Removes the first entry keyed by `key`; the last entry moves into its
    /// place. Nothing changes where no entry has that key.
    pub fn unregister(&mut self, key: &K)
        requires
            old(self).wf(),
        ensures
            final(self).wf(),
            K::obeys_eq_spec() ==> final(self)@ == unregistered(
                old(self)@,
                *key,
            ),
            final(self)@.len() <= old(self)@.len(),
    {
        match self.position(key) {
            Some(ix) => {
                self.index.swap_remove(ix);
                self.list.swap_remove(ix);
                proof {
                    let s = old(self)@;
                    if K::obeys_eq_spec() {
                        lemma_first_match_unique(s, *key, ix as int);
                        assert(self@ =~= s.update(ix as int, s.last()).drop_last());
                    }
                }
            },
            None => {},
        }
    }

    /// Replaces the events asked for by the first entry keyed by `key`.
    /// Returns whether there was such an entry.
    pub fn set(&mut self, key: &K, events: Events) -> (r: bool)
        requires
            old(self).wf(),
        ensures
            final(self).wf(),
            K::obeys_eq_spec() ==> {
                &&& r == has_key(old(self)@, *key)
                &&& final(self)@ == interest_set(old(self)@, *key, events)
            },
    {
        match self.position(key) {
            Some(ix) => {
                let mut d = self.list[ix];
                d.set_events(events);
                self.list.set(ix, d);
                proof {
                    let s = old(self)@;
                    if K::obeys_eq_spec() {
                        lemma_first_match_unique(s, *key, ix as int);
                        assert(self@ =~= s.update(ix as int, (s[ix as int].0, s[ix as int].1.with_events(events))));
                    }
                }
                true
            },
            None => false,
        }
    }

    /// The first entry keyed by `key`, to be changed in place.
    pub fn get_mut(&mut self, key: &K) -> (r: Option<&mut Descriptor>)
        requires
            old(self).wf(),
        ensures
            final(self).wf(),
            K::obeys_eq_spec() ==> match r {
                Some(d) => {
                    let i = position_of(old(self)@, *key);
                    &&& has_key(old(self)@, *key)
                    &&& *d == old(self)@[i].1
                    &&& final(self)@ == old(self)@.update(i, (old(self)@[i].0, *final(d)))
                },
                None => !has_key(old(self)@, *key) && final(self)@ == old(self)@,
            },
    {
        match self.position(key) {
            Some(ix) => {
                proof {
                    if K::obeys_eq_spec() {
                        lemma_first_match_unique(old(self)@, *key, ix as int);
                    }
                }
                Some(&mut self.list[ix])
            },
            None => None,
        }
    }

    /// Records what a readiness check reported: entry `i` gets `revents[i]`,
    /// and entries past the end of `revents` get nothing.
    pub fn set_readiness(&mut self, revents: &Vec<Events>)
        requires
            old(self).wf(),
        ensures
            final(self).wf(),
            final(self)@ == with_readiness(old(self)@, revents@),
    {
        let n = self.list.len();
        let mut i: usize = 0;
        while i < n
            invariant
                n == self.list@.len(),
                self.index@ == old(self).index@,
                self.index@.len() == n,
                i <= n,
                forall|j: int|
                    0 <= j < i ==> #[trigger] self.list@[j] == old(self).list@[j].with_revents(
                        if j < revents@.len() {
                            revents@[j]
                        } else {
                            0
                        },
                    ),
                forall|j: int| i <= j < n ==> #[trigger] self.list@[j] == old(self).list@[j],
            decreases n - i,
        {
            let r: Events = if i < revents.len() {
                revents[i]
            } else {
                0
            };
            let mut d = self.list[i];
            d.set_revents(r);
            self.list.set(i, d);
            i = i + 1;
        }
        assert(self@ =~= with_readiness(old(self)@, revents@));
    }
}

} // verus!
