//! What a wait guarantees, stated over the contracts of the registry and of `wait`.
use vstd::prelude::*;
use vstd::std_specs::cmp::PartialEqSpec;

use crate::descriptor::Descriptor;
use crate::descriptors::{first_match, has_key, matches_at, unregistered};
use crate::event::reports;
use crate::events::{Events, POLLERR, POLLHUP, POLLIN, POLLNVAL, READ, WRITE};
use crate::wait::{events_of, fired, fires, waited, waker_ok, wakers_ok, Wait};

verus! {

/// Extending a prefix by one entry extends what fired by that entry, if it fired.
proof fn lemma_fired_take<K>(s: Seq<(K, Descriptor)>, k: int)
    requires
        0 <= k < s.len(),
    ensures
        fired(s.take(k + 1)) == if s[k].1.revents() != 0 {
            fired(s.take(k)).push(s[k])
        } else {
            fired(s.take(k))
        },
{
    assert(s.take(k + 1) =~= s.take(k).push(s[k]));
    s.take(k).lemma_filter_push(s[k], fires());
}

/// Entries that report nothing add nothing to what fired.
proof fn lemma_fired_quiet<K>(s: Seq<(K, Descriptor)>, a: int, b: int)
    requires
        0 <= a <= b <= s.len(),
        forall|j: int| a <= j < b ==> #[trigger] s[j].1.revents() == 0,
    ensures
        fired(s.take(b)) == fired(s.take(a)),
    decreases b - a,
{
    if a < b {
        lemma_fired_quiet(s, a, b - 1);
        lemma_fired_take(s, b - 1);
    }
}

/// Nothing fires in an empty prefix.
proof fn lemma_fired_empty<K>(s: Seq<(K, Descriptor)>)
    ensures
        fired(s.take(0)) == Seq::<(K, Descriptor)>::empty(),
{
    reveal(Seq::filter);
    assert(s.take(0) =~= Seq::<(K, Descriptor)>::empty());
}

/// Where exactly entry `i` reports anything, it alone fires.
proof fn lemma_fired_single<K>(s: Seq<(K, Descriptor)>, i: int)
    requires
        0 <= i < s.len(),
        s[i].1.revents() != 0,
        forall|j: int| 0 <= j < s.len() && j != i ==> #[trigger] s[j].1.revents() == 0,
    ensures
        fired(s) == seq![s[i]],
{
    lemma_fired_empty(s);
    lemma_fired_quiet(s, 0, i);
    lemma_fired_take(s, i);
    lemma_fired_quiet(s, i + 1, s.len() as int);
    assert(s.take(s.len() as int) =~= s);
    assert(fired(s) =~= seq![s[i]]);
}

/// A readiness report of incoming data alone is readable, and nothing else.
proof fn lemma_pollin_facets()
    ensures
        reports(POLLIN, READ),
        !reports(POLLIN, WRITE),
        !reports(POLLIN, POLLHUP),
        !reports(POLLIN, POLLERR | POLLNVAL),
        !reports(POLLIN, !READ),
{
    let (i, rd, wr, hup, err) = (POLLIN, READ, WRITE, POLLHUP, POLLERR | POLLNVAL);
    assert(i == 1i16 && rd == (1i16 | 2i16) && wr == (4i16 | 0x200i16) && hup == 0x10i16 && err
        == (8i16 | 0x20i16));
    assert(i == 1i16 && rd == (1i16 | 2i16) && wr == (4i16 | 0x200i16) && hup == 0x10i16 && err
        == (8i16 | 0x20i16) ==> (i & rd) != 0 && (i & wr) == 0 && (i & hup) == 0 && (i & err) == 0 && (i & !rd) == 0)
        by (bit_vector);
}

/// Where no entry reports anything and no entry is a waker, a wait that the
/// readiness check did not fail yields no events; with a count of zero it
/// times out.
pub proof fn lemma_quiet_wait_is_empty<K: Clone>(
    s: Seq<(K, Descriptor)>,
    n: usize,
    r: Result<Wait<K>, crate::wait::Error>,
)
    requires
        forall|i: int| 0 <= i < s.len() ==> #[trigger] s[i].1.revents() == 0 && !s[i].1.is_waker(),
        waited(s, Ok(n), r),
    ensures
        r is Ok,
        r->Ok_0.events().len() == 0,
        n == 0 ==> r->Ok_0 is Timeout,
{
    if n != 0 {
        assert(wakers_ok(s)) by {
            assert forall|i: int| 0 <= i < s.len() implies waker_ok(#[trigger] s[i].1) by {}
        }
        lemma_fired_empty(s);
        lemma_fired_quiet(s, 0, s.len() as int);
        assert(s.take(s.len() as int) =~= s);
    }
}

/// Where one entry reports incoming data and no other reports anything, a wait
/// yields exactly one event: that entry's, under a clone of its key, readable
/// and neither writable, hung up nor errored.
pub proof fn lemma_single_readable<K: Clone>(
    s: Seq<(K, Descriptor)>,
    i: int,
    n: usize,
    r: Result<Wait<K>, crate::wait::Error>,
)
    requires
        0 <= i < s.len(),
        s[i].1.revents() == POLLIN,
        forall|j: int| 0 <= j < s.len() && j != i ==> #[trigger] s[j].1.revents() == 0,
        n > 0,
        waited(s, Ok(n), r),
    ensures
        r matches Ok(Wait::Ready(_)),
        r->Ok_0.events().len() == 1,
        cloned(s[i].0, r->Ok_0.events()[0].0),
        r->Ok_0.events()[0].1.descriptor == s[i].1,
        r->Ok_0.events()[0].1.readable,
        !r->Ok_0.events()[0].1.writable,
        !r->Ok_0.events()[0].1.hangup,
        !r->Ok_0.events()[0].1.errored,
{
    lemma_pollin_facets();
    assert(wakers_ok(s)) by {
        assert forall|j: int| 0 <= j < s.len() implies waker_ok(#[trigger] s[j].1) by {}
    }
    lemma_fired_single(s, i);
    assert(fired(s)[0] == s[i]);
}

/// A waker that was woken, and nothing else, makes a wait yield exactly one
/// readable event, under a clone of the waker's key, whose descriptor is marked
/// as a waker so that the caller drains it.
pub proof fn lemma_woken_waker<K: Clone>(
    s: Seq<(K, Descriptor)>,
    i: int,
    n: usize,
    r: Result<Wait<K>, crate::wait::Error>,
)
    requires
        0 <= i < s.len(),
        s[i].1.is_waker(),
        s[i].1.revents() == POLLIN,
        forall|j: int| 0 <= j < s.len() && j != i ==> #[trigger] s[j].1.revents() == 0,
        n > 0,
        waited(s, Ok(n), r),
    ensures
        r matches Ok(Wait::Ready(_)),
        r->Ok_0.events().len() == 1,
        cloned(s[i].0, r->Ok_0.events()[0].0),
        r->Ok_0.events()[0].1.readable,
        r->Ok_0.events()[0].1.descriptor.is_waker(),
{
    lemma_single_readable(s, i, n, r);
}

/// After removing the only entry keyed by `key`, no entry has that key, and no
/// event of a later wait comes from an entry with that key. Registering `key`
/// again then adds a fresh entry, which is the one that lookups by `key` find.
pub proof fn lemma_unregister_forgets<K: PartialEq + Clone>(
    s: Seq<(K, Descriptor)>,
    key: K,
    polled: Result<usize, i32>,
    r: Result<Wait<K>, crate::wait::Error>,
    again: Seq<(K, Descriptor)>,
    fd: i32,
    events: Events,
)
    requires
        K::obeys_eq_spec(),
        key.eq_spec(&key),
        forall|i: int, j: int| matches_at(s, key, i) && matches_at(s, key, j) ==> i == j,
        waited(unregistered(s, key), polled, r),
        again.len() == unregistered(s, key).len() + 1,
        again.drop_last() == unregistered(s, key),
        again.last().0 == key,
        Descriptor::is_fresh(again.last().1, fd, events, false),
    ensures
        !has_key(unregistered(s, key), key),
        r is Ok ==> forall|j: int|
            0 <= j < r->Ok_0.events().len() ==> !(#[trigger] fired(unregistered(s, key))[j]).0.eq_spec(&key),
        first_match(again, key, again.len() - 1),
        again[again.len() - 1].1.revents() == 0,
{
    let t = unregistered(s, key);
    if has_key(s, key) {
        let i = choose|i: int| matches_at(s, key, i);
        assert(first_match(s, key, i));
        crate::descriptors::lemma_first_match_unique(s, key, i);
        assert(t == s.update(i, s.last()).drop_last());
        assert forall|k: int| 0 <= k < t.len() implies !matches_at(t, key, k) by {
            let last = s.len() - 1;
            assert(matches_at(s, key, last) ==> last == i);
            assert(matches_at(s, key, k) ==> k == i);
            if k == i {
                assert(t[k] == s[last]);
            } else {
                assert(t[k] == s[k]);
            }
        }
    }
    assert(!has_key(t, key));
    if r is Ok {
        assert forall|j: int| 0 <= j < r->Ok_0.events().len() implies !(#[trigger] fired(t)[j]).0.eq_spec(
            &key,
        ) by {
            t.lemma_filter_len(fires());
            t.lemma_filter_contains_rev(fires(), fired(t)[j]);
            assert(fired(t).contains(fired(t)[j]));
            let k = choose|k: int| 0 <= k < t.len() && t[k] == fired(t)[j];
            assert(!matches_at(t, key, k));
        }
    }
    assert forall|j: int| 0 <= j < again.len() - 1 implies !matches_at(again, key, j) by {
        assert(again.drop_last()[j] == again[j]);
        assert(!matches_at(t, key, j));
    }
}

/// A hang-up is reported whatever events the entry asked for: a wait yields an
/// event for that entry with `hangup` set.
pub proof fn lemma_hangup_reported<K: Clone>(
    s: Seq<(K, Descriptor)>,
    i: int,
    n: usize,
    r: Result<Wait<K>, crate::wait::Error>,
)
    requires
        0 <= i < s.len(),
        reports(s[i].1.revents(), POLLHUP),
        wakers_ok(s),
        n > 0,
        waited(s, Ok(n), r),
    ensures
        r matches Ok(Wait::Ready(_)),
        exists|j: int|
            0 <= j < r->Ok_0.events().len() && (#[trigger] r->Ok_0.events()[j]).1.hangup
                && r->Ok_0.events()[j].1.descriptor == s[i].1 && cloned(
                s[i].0,
                r->Ok_0.events()[j].0,
            ),
{
    let x = s[i].1.revents();
    assert(POLLHUP == 0x10i16);
    assert(x & 0x10i16 != 0 ==> x != 0) by (bit_vector);
    s.lemma_filter_contains(fires(), i);
    let j = choose|j: int| 0 <= j < fired(s).len() && fired(s)[j] == s[i];
    assert(r->Ok_0.events()[j].1.hangup);
}

} // verus!
