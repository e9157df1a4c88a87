//! The registry of live connections and the queues that reach them.
use crate::ids::{is_generated_id, SocketId};
use crate::messages::OutgoingMessage;
use tokio::sync::mpsc::{Receiver, Sender};
use vstd::prelude::*;

verus! {

/// The sending end of a connection's queue.
#[verifier::external_type_specification]
#[verifier::external_body]
#[verifier::reject_recursive_types(T)]
pub struct ExSender<T>(Sender<T>);

/// The receiving end of a connection's queue, drained by its own loop.
#[verifier::external_type_specification]
#[verifier::external_body]
#[verifier::reject_recursive_types(T)]
pub struct ExReceiver<T>(Receiver<T>);

/// The bound that the queue behind a sending end was made with (what its
/// `max_capacity` reports).
pub uninterp spec fn sender_bound(s: Sender<OutgoingMessage>) -> nat;

/// The bound that the queue behind a receiving end was made with (what its
/// `max_capacity` reports).
pub uninterp spec fn receiver_bound(r: Receiver<OutgoingMessage>) -> nat;

/// Whether a sending end and a receiving end belong to the same queue, so
/// that what is sent on the one is received on the other.
pub uninterp spec fn same_queue(s: Sender<OutgoingMessage>, r: Receiver<OutgoingMessage>) -> bool;

/// The largest bound a tokio queue accepts (its semaphore's permit limit,
/// `usize::MAX >> 3`).
pub const MAX_QUEUE_BOUND: usize = usize::MAX / 8;

/// Relies on tokio's `mpsc::channel`: one queue holding at most `buffer`
/// messages, whose two ends it returns, both made with that bound. It panics when `buffer` is zero
/// or above `usize::MAX >> 3`.
#[verifier::external_body]
fn new_queue(buffer: usize) -> (r: (Sender<OutgoingMessage>, Receiver<OutgoingMessage>))
    requires
        0 < buffer <= MAX_QUEUE_BOUND,
    ensures
        sender_bound(r.0) == buffer,
        receiver_bound(r.1) == buffer,
        same_queue(r.0, r.1),
{
    tokio::sync::mpsc::channel(buffer)
}

/// How many messages may wait for one connection before senders wait.
pub const QUEUE_CAPACITY: usize = 10;

/// Live connections and the queues that reach them, each listed once.
///
/// A list of pairs with distinct ids stands where a hash map might: the ids
/// are strings, and vstd's `HashMap` specification says nothing about keys
/// of such a type.
pub struct Sockets(Vec<(SocketId, Sender<OutgoingMessage>)>);

impl View for Sockets {
    type V = Map<Seq<char>, Sender<OutgoingMessage>>;

    closed spec fn view(&self) -> Map<Seq<char>, Sender<OutgoingMessage>> {
        Map::new(
            |k: Seq<char>| exists|i: int| 0 <= i < self.0@.len() && self.0@[i].0@ == k,
            |k: Seq<char>| self.0@[choose|i: int| 0 <= i < self.0@.len() && self.0@[i].0@ == k].1,
        )
    }
}

impl Sockets {
    /// No connection is listed twice.
    pub closed spec fn wf(&self) -> bool {
        forall|i: int, j: int|
            0 <= i < self.0@.len() && 0 <= j < self.0@.len() && i != j ==> (#[trigger] self.0@[i]).0@
                != (#[trigger] self.0@[j]).0@
    }

    /// In a well-formed list, the entry at `i` is what the map holds for its id.
    proof fn lemma_entry(&self, i: int)
        requires
            self.wf(),
            0 <= i < self.0@.len(),
        ensures
            self@.contains_key(self.0@[i].0@),
            self@[self.0@[i].0@] == self.0@[i].1,
    {
        let k = self.0@[i].0@;
        assert(self@.contains_key(k));
        let c = choose|j: int| 0 <= j < self.0@.len() && self.0@[j].0@ == k;
        assert(c == i);
    }

    pub fn new() -> (r: Sockets)
        ensures
            r.wf(),
            r@ == Map::<Seq<char>, Sender<OutgoingMessage>>::empty(),
    {
        let r = Sockets(Vec::new());
        assert(r@ =~= Map::<Seq<char>, Sender<OutgoingMessage>>::empty());
        r
    }

    fn position(&self, socket_id: &SocketId) -> (r: Option<usize>)
        requires
            self.wf(),
        ensures
            match r {
                Some(i) => i < self.0@.len() && self.0@[i as int].0@ == socket_id@,
                None => !self@.contains_key(socket_id@),
            },
    {
        let mut i: usize = 0;
        while i < self.0.len()
            invariant
                0 <= i <= self.0.len(),
                forall|j: int| 0 <= j < i ==> (#[trigger] self.0@[j]).0@ != socket_id@,
            decreases self.0.len() - i,
        {
            if self.0[i].0.same(socket_id) {
                return Some(i);
            }
            i = i + 1;
        }
        None
    }

    /// The queue stored for `socket_id`, where it is live.
    pub fn get(&self, socket_id: &SocketId) -> (r: Option<&Sender<OutgoingMessage>>)
        requires
            self.wf(),
        ensures
            match r {
                Some(tx) => self@.contains_key(socket_id@) && *tx == self@[socket_id@],
                None => !self@.contains_key(socket_id@),
            },
    {
        match self.position(socket_id) {
            Some(i) => {
                proof {
                    self.lemma_entry(i as int);
                }
                Some(&self.0[i].1)
            },
            None => None,
        }
    }

    /// Lists `socket_id` with the queue `tx`, in place of any queue it had.
    fn insert(&mut self, socket_id: SocketId, tx: Sender<OutgoingMessage>)
        requires
            old(self).wf(),
        ensures
            final(self).wf(),
            final(self)@ == old(self)@.insert(socket_id@, tx),
    {
        let ghost k = socket_id@;
        let ghost v = tx;
        match self.position(&socket_id) {
            Some(i) => {
                self.0.set(i, (socket_id, tx));
                assert forall|a: int, b: int|
                    0 <= a < self.0@.len() && 0 <= b < self.0@.len() && a != b implies (#[trigger] self.0@[a]).0@
                        != (#[trigger] self.0@[b]).0@ by {
                    assert(old(self).0@[a].0@ == self.0@[a].0@);
                    assert(old(self).0@[b].0@ == self.0@[b].0@);
                }
                assert forall|x: Seq<char>| #[trigger] self@.contains_key(x) == old(self)@.insert(k, v).contains_key(x) by {
                    if self@.contains_key(x) {
                        let j = choose|j: int| 0 <= j < self.0@.len() && self.0@[j].0@ == x;
                        assert(old(self).0@[j].0@ == x);
                    }
                    if old(self)@.contains_key(x) {
                        let j = choose|j: int| 0 <= j < old(self).0@.len() && old(self).0@[j].0@ == x;
                        assert(self.0@[j].0@ == x);
                    }
                }
                assert forall|x: Seq<char>| #[trigger] self@.contains_key(x) implies self@[x] == old(self)@.insert(k, v)[x] by {
                    let j = choose|j: int| 0 <= j < self.0@.len() && self.0@[j].0@ == x;
                    self.lemma_entry(j);
                    if j != i {
                        old(self).lemma_entry(j);
                    }
                }
                assert(self@ =~= old(self)@.insert(k, v));
            },
            None => {
                self.0.push((socket_id, tx));
                let ghost n = old(self).0@.len() as int;
                assert forall|a: int, b: int|
                    0 <= a < self.0@.len() && 0 <= b < self.0@.len() && a != b implies (#[trigger] self.0@[a]).0@
                        != (#[trigger] self.0@[b]).0@ by {
                    if a < n {
                        assert(self.0@[a] == old(self).0@[a]);
                        assert(old(self)@.contains_key(self.0@[a].0@));
                    }
                    if b < n {
                        assert(self.0@[b] == old(self).0@[b]);
                        assert(old(self)@.contains_key(self.0@[b].0@));
                    }
                }
                assert forall|x: Seq<char>| #[trigger] self@.contains_key(x) == old(self)@.insert(k, v).contains_key(x) by {
                    if self@.contains_key(x) {
                        let j = choose|j: int| 0 <= j < self.0@.len() && self.0@[j].0@ == x;
                        if j < n {
                            assert(old(self).0@[j] == self.0@[j]);
                        }
                    }
                    if old(self)@.contains_key(x) {
                        let j = choose|j: int| 0 <= j < old(self).0@.len() && old(self).0@[j].0@ == x;
                        assert(self.0@[j] == old(self).0@[j]);
                    }
                    assert(self.0@[n].0@ == k);
                }
                assert forall|x: Seq<char>| #[trigger] self@.contains_key(x) implies self@[x] == old(self)@.insert(k, v)[x] by {
                    let j = choose|j: int| 0 <= j < self.0@.len() && self.0@[j].0@ == x;
                    self.lemma_entry(j);
                    if j < n {
                        assert(old(self).0@[j] == self.0@[j]);
                        old(self).lemma_entry(j);
                    }
                }
                assert(self@ =~= old(self)@.insert(k, v));
            },
        }
    }

    /// Lists a new connection under a fresh random id with the sending end of
    /// a new queue bounded at `QUEUE_CAPACITY`, and returns the id with the
    /// receiving end of that same queue.
    pub fn register(&mut self) -> (r: (SocketId, Receiver<OutgoingMessage>))
        requires
            old(self).wf(),
        ensures
            final(self).wf(),
            is_generated_id(r.0@),
            final(self)@.contains_key(r.0@),
            final(self)@.remove(r.0@) == old(self)@.remove(r.0@),
            sender_bound(final(self)@[r.0@]) == QUEUE_CAPACITY,
            receiver_bound(r.1) == QUEUE_CAPACITY,
            same_queue(final(self)@[r.0@], r.1),
    {
        let (tx, rx) = new_queue(QUEUE_CAPACITY);
        let id = SocketId::random();
        self.insert(id.duplicate(), tx);
        assert(self@.remove(id@) =~= old(self)@.remove(id@));
        (id, rx)
    }

    /// Takes `socket_id` off the list; every other queue stays as it was.
    pub fn unregister(&mut self, socket_id: &SocketId)
        requires
            old(self).wf(),
        ensures
            final(self).wf(),
            final(self)@ == old(self)@.remove(socket_id@),
    {
        match self.position(socket_id) {
            Some(i) => {
                self.0.remove(i);
                let ghost k = socket_id@;
                assert forall|a: int| 0 <= a < self.0@.len() implies #[trigger] self.0@[a] == old(self).0@[
                    if a < i { a } else { a + 1 }] by {}
                assert forall|x: Seq<char>| #[trigger] self@.contains_key(x) == old(self)@.remove(k).contains_key(x) by {
                    if self@.contains_key(x) {
                        let j = choose|j: int| 0 <= j < self.0@.len() && self.0@[j].0@ == x;
                        let oj = if j < i { j } else { j + 1 };
                        assert(self.0@[j] == old(self).0@[oj]);
                        assert(oj != i);
                    }
                    if old(self)@.remove(k).contains_key(x) {
                        let j = choose|j: int| 0 <= j < old(self).0@.len() && old(self).0@[j].0@ == x;
                        assert(j != i);
                        if j < i {
                            assert(self.0@[j] == old(self).0@[j]);
                        } else {
                            assert(self.0@[j - 1] == old(self).0@[j]);
                        }
                    }
                }
                assert forall|x: Seq<char>| #[trigger] self@.contains_key(x) implies self@[x] == old(self)@.remove(k)[x] by {
                    let j = choose|j: int| 0 <= j < self.0@.len() && self.0@[j].0@ == x;
                    let oj = if j < i { j } else { j + 1 };
                    assert(self.0@[j] == old(self).0@[oj]);
                    self.lemma_entry(j);
                    old(self).lemma_entry(oj);
                }
                assert(self@ =~= old(self)@.remove(k));
            },
            None => {
                assert(self@ =~= old(self)@.remove(socket_id@));
            },
        }
    }
}

} // verus!
