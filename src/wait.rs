//! Turning the outcome of one readiness check over a registry into events.
use vstd::prelude::*;

use crate::descriptor::Descriptor;
use crate::descriptors::Descriptors;
use crate::event::{event_of, reports, Event};
use crate::events::READ;

verus! {

/// The outcome of a wait that did not fail.
pub enum Wait<K> {
    /// Nothing became ready before the timeout.
    Timeout,
    /// The entries that reported readiness, in registration order, each with its key.
    Ready(Vec<(K, Event)>),
}

/// Why a wait failed.
#[derive(Debug, Copy, Clone, PartialEq, Eq)]
pub enum Error {
    /// The readiness check failed with this OS error code.
    Os(i32),
    /// The waker entry at this position reported more than readability (writing,
    /// an error or a hang-up), or nothing readable: the bookkeeping is broken.
    BadWaker(usize),
}

/// Whether entry `e` reported anything.
pub open spec fn fires<K>() -> spec_fn((K, Descriptor)) -> bool {
    |e: (K, Descriptor)| e.1.revents() != 0
}

/// The entries of `s` that reported anything, in order.
pub open spec fn fired<K>(s: Seq<(K, Descriptor)>) -> Seq<(K, Descriptor)> {
    s.filter(fires())
}

/// A waker entry may only report readability: some read flag, and no other flag.
pub open spec fn waker_ok(d: Descriptor) -> bool {
    d.is_waker() && d.revents() != 0 ==> reports(d.revents(), READ) && !reports(d.revents(), !READ)
}

/// Every waker entry of `s` reports only readability, if anything.
pub open spec fn wakers_ok<K>(s: Seq<(K, Descriptor)>) -> bool {
    forall|i: int| 0 <= i < s.len() ==> waker_ok(#[trigger] s[i].1)
}

/// Entry `i` is the first waker entry of `s` that reports more than readability.
pub open spec fn first_bad_waker<K>(s: Seq<(K, Descriptor)>, i: int) -> bool {
    &&& 0 <= i < s.len()
    &&& !waker_ok(s[i].1)
    &&& forall|j: int| 0 <= j < i ==> waker_ok(#[trigger] s[j].1)
}

/// `evs` are the events of the entries `src`, one for one, each under a clone
/// of its entry's key.
pub open spec fn events_of<K: Clone>(src: Seq<(K, Descriptor)>, evs: Seq<(K, Event)>) -> bool {
    &&& evs.len() == src.len()
    &&& forall|j: int|
        0 <= j < evs.len() ==> cloned(src[j].0, (#[trigger] evs[j]).0) && evs[j].1 == event_of(
            src[j].1,
        )
}

impl<K> Wait<K> {
    /// The events that this outcome holds.
    pub open spec fn events(self) -> Seq<(K, Event)> {
        match self {
            Wait::Timeout => Seq::empty(),
            Wait::Ready(evs) => evs@,
        }
    }

    /// The events, in order.
    pub fn iter(self) -> (r: Vec<(K, Event)>)
        ensures
            r@ == self.events(),
    {
        match self {
            Wait::Ready(evs) => evs,
            Wait::Timeout => Vec::new(),
        }
    }

    /// Whether the wait timed out.
    pub fn is_empty(&self) -> (r: bool)
        ensures
            r == (self is Timeout),
    {
        match self {
            Wait::Timeout => true,
            Wait::Ready(_) => false,
        }
    }
}

/// What a wait over the entries `s` returns, where the readiness check
/// reported `polled`: the number of ready entries, or an OS error code.
pub open spec fn waited<K: Clone>(
    s: Seq<(K, Descriptor)>,
    polled: Result<usize, i32>,
    r: Result<Wait<K>, Error>,
) -> bool {
    match polled {
        Err(code) => r == Err::<Wait<K>, Error>(Error::Os(code)),
        Ok(n) => {
            if n == 0 {
                r matches Ok(Wait::Timeout)
            } else if wakers_ok(s) {
                &&& r matches Ok(Wait::Ready(_))
                &&& events_of(fired(s), r->Ok_0.events())
            } else {
                &&& r matches Err(Error::BadWaker(_))
                &&& first_bad_waker(s, r->Err_0->BadWaker_0 as int)
            }
        },
    }
}

/// The handles of the waker entries among `evs`, in order.
pub open spec fn waker_handles<K>(evs: Seq<(K, Event)>) -> Seq<i32>
    decreases evs.len(),
{
    if evs.len() == 0 {
        Seq::empty()
    } else {
        let rest = waker_handles(evs.drop_last());
        if evs.last().1.descriptor.is_waker() {
            rest.push(evs.last().1.descriptor.fd())
        } else {
            rest
        }
    }
}

/// The handles of the wakers that fired among `evs`: each is to be drained of
/// one wake, so that it can fire again.
pub fn waker_fds<K>(evs: &Vec<(K, Event)>) -> (r: Vec<i32>)
    ensures
        r@ == waker_handles(evs@),
{
    let mut r: Vec<i32> = Vec::new();
    let mut i: usize = 0;
    while i < evs.len()
        invariant
            i <= evs@.len(),
            r@ == waker_handles(evs@.take(i as int)),
        decreases evs@.len() - i,
    {
        let d = evs[i].1.descriptor;
        proof {
            assert(evs@.take(i + 1).drop_last() =~= evs@.take(i as int));
        }
        if d.is_waker() {
            r.push(d.fd());
        }
        i = i + 1;
    }
    proof {
        assert(evs@.take(evs@.len() as int) =~= evs@);
    }
    r
}

/// The timeout of a readiness check, in milliseconds, saturated at `i32::MAX`.
pub fn timeout_millis(millis: u128) -> (r: i32)
    ensures
        r as int == if millis > i32::MAX as u128 {
            i32::MAX as int
        } else {
            millis as int
        },
{
    if millis > i32::MAX as u128 {
        i32::MAX
    } else {
        millis as i32
    }
}

/// Interprets one readiness check over `fds`, whose outcome is `polled`: the
/// number of ready entries, or an OS error code. The readiness that the check
/// reported stands in the entries.
pub fn wait<K: PartialEq + Clone>(fds: &Descriptors<K>, polled: Result<usize, i32>) -> (r: Result<
    Wait<K>,
    Error,
>)
    requires
        fds.wf(),
    ensures
        waited(fds@, polled, r),
{
    match polled {
        Err(code) => Err(Error::Os(code)),
        Ok(n) => {
            if n == 0 {
                return Ok(Wait::Timeout);
            }
            let keys = fds.keys();
            let list = fds.descriptors();
            let ghost s = fds@;
            let mut evs: Vec<(K, Event)> = Vec::new();
            let mut i: usize = 0;
            while i < list.len()
                invariant
                    polled == Ok::<usize, i32>(n),
                    n != 0,
                    s == fds@,
                    keys@.len() == s.len(),
                    list@.len() == s.len(),
                    forall|j: int| 0 <= j < s.len() ==> keys@[j] == #[trigger] s[j].0,
                    forall|j: int| 0 <= j < s.len() ==> list@[j] == #[trigger] s[j].1,
                    i <= s.len(),
                    forall|j: int| 0 <= j < i ==> waker_ok(#[trigger] s[j].1),
                    events_of(fired(s.take(i as int)), evs@),
                decreases s.len() - i,
            {
                let d = list[i];
                proof {
                    assert(s.take(i + 1) =~= s.take(i as int).push(s[i as int]));
                    s.take(i as int).lemma_filter_push(s[i as int], fires());
                }
                if d.revents() != 0 {
                    let revents = d.revents();
                    if d.is_waker() && !(revents & READ != 0 && revents & !READ == 0) {
                        proof {
                            assert(!waker_ok(s[i as int].1));
                            assert(!wakers_ok(s));
                        }
                        return Err(Error::BadWaker(i));
                    }
                    let key = keys[i].clone();
                    evs.push((key, Event::from(&d)));
                }
                i = i + 1;
            }
            proof {
                assert(s.take(s.len() as int) =~= s);
            }
            Ok(Wait::Ready(evs))
        },
    }
}

} // verus!
