//! The work queue between the controller and the extraction worker: an
//! unbounded first-in, first-out queue of capture events with one producer
//! and one consumer. Closing the producer's side never loses what is queued.
//!
//! The queue is plain data. Where two threads share it, the owner puts it
//! behind a lock and lets the consumer sleep while [`WorkQueue::recv`]
//! reports [`Received::Empty`].

use vstd::prelude::*;
use std::collections::VecDeque;

verus! {

/// A capture event: one stored capture that waits for extraction.
#[derive(Debug, Clone, PartialEq)]
pub struct OcrWorkItem {
    /// Where the captured image is stored.
    pub screenshot_path: String,
    /// The iteration that produced it, counted from 1.
    pub iteration: u32,
    /// When it was captured, as it is written into the results.
    pub captured_at: String,
}

impl OcrWorkItem {
    /// A capture event.
    pub fn new(screenshot_path: String, iteration: u32, captured_at: String) -> (item: OcrWorkItem)
        ensures
            item == (OcrWorkItem { screenshot_path, iteration, captured_at }),
    {
        OcrWorkItem { screenshot_path, iteration, captured_at }
    }
}

/// What the consumer gets when it asks for the next item.
#[derive(Debug, Clone, PartialEq)]
pub enum Received {
    /// The oldest queued item.
    Item(OcrWorkItem),
    /// Nothing is queued, but the producer may still send: ask again later.
    Empty,
    /// Nothing is queued and the producer has closed its side: the end.
    Closed,
}

/// The mathematical value of a [`WorkQueue`].
pub ghost struct QueueModel {
    /// The queued items, oldest first.
    pub pending: Seq<OcrWorkItem>,
    /// The producer has closed its side.
    pub closed: bool,
    /// The consumer has gone.
    pub abandoned: bool,
}

impl QueueModel {
    /// An empty queue with both sides open.
    pub open spec fn fresh() -> QueueModel {
        QueueModel { pending: Seq::empty(), closed: false, abandoned: false }
    }

    /// Whether the queue takes another item.
    pub open spec fn accepts(self) -> bool {
        !self.closed && !self.abandoned
    }

    /// The queue after the producer offered `item`.
    pub open spec fn send(self, item: OcrWorkItem) -> QueueModel {
        if self.accepts() {
            QueueModel { pending: self.pending.push(item), ..self }
        } else {
            self
        }
    }

    /// What the consumer gets next.
    pub open spec fn next(self) -> Received {
        if self.pending.len() > 0 {
            Received::Item(self.pending[0])
        } else if self.closed {
            Received::Closed
        } else {
            Received::Empty
        }
    }

    /// The queue after the consumer asked for the next item.
    pub open spec fn recv(self) -> QueueModel {
        if self.pending.len() > 0 {
            QueueModel { pending: self.pending.drop_first(), ..self }
        } else {
            self
        }
    }

    /// The queue after the producer closed its side.
    pub open spec fn close(self) -> QueueModel {
        QueueModel { closed: true, ..self }
    }

    /// The queue after the consumer went away: what was queued is dropped.
    pub open spec fn abandon(self) -> QueueModel {
        QueueModel { pending: Seq::empty(), abandoned: true, ..self }
    }

    /// What the consumer gets when it asks `count` times in a row.
    pub open spec fn deliveries(self, count: nat) -> Seq<Received>
        decreases count,
    {
        if count == 0 {
            Seq::empty()
        } else {
            seq![self.next()] + self.recv().deliveries((count - 1) as nat)
        }
    }

    /// The queue after the producer offered each of `items` in turn.
    pub open spec fn send_all(self, items: Seq<OcrWorkItem>) -> QueueModel
        decreases items.len(),
    {
        if items.len() == 0 {
            self
        } else {
            self.send_all(items.drop_last()).send(items.last())
        }
    }
}

/// The work queue.
#[derive(Debug)]
pub struct WorkQueue {
    items: VecDeque<OcrWorkItem>,
    closed: bool,
    abandoned: bool,
}

impl View for WorkQueue {
    type V = QueueModel;

    closed spec fn view(&self) -> QueueModel {
        QueueModel { pending: self.items@, closed: self.closed, abandoned: self.abandoned }
    }
}

/// A new, empty work queue with both sides open.
pub fn create_work_queue() -> (queue: WorkQueue)
    ensures
        queue@ == QueueModel::fresh(),
{
    WorkQueue { items: VecDeque::new(), closed: false, abandoned: false }
}

impl WorkQueue {
    /// Queues `item` behind everything queued before. Once either side is
    /// closed the queue takes nothing more and hands the item back.
    pub fn send(&mut self, item: OcrWorkItem) -> (r: Result<(), OcrWorkItem>)
        ensures
            final(self)@ == old(self)@.send(item),
            old(self)@.accepts() ==> r is Ok,
            !old(self)@.accepts() ==> r == Err::<(), OcrWorkItem>(item),
    {
        if self.closed || self.abandoned {
            return Err(item);
        }
        self.items.push_back(item);
        Ok(())
    }

    /// Takes the oldest queued item. What is queued is delivered also
    /// after the producer has closed its side; only an empty queue reports
    /// the closure.
    pub fn recv(&mut self) -> (r: Received)
        ensures
            r == old(self)@.next(),
            final(self)@ == old(self)@.recv(),
    {
        match self.items.pop_front() {
            Some(item) => Received::Item(item),
            None => {
                if self.closed {
                    Received::Closed
                } else {
                    Received::Empty
                }
            },
        }
    }

    /// Closes the producer's side. What is queued stays queued.
    pub fn close(&mut self)
        ensures
            final(self)@ == old(self)@.close(),
    {
        self.closed = true;
    }

    /// Records that the consumer has gone. What was queued is dropped.
    pub fn abandon(&mut self)
        ensures
            final(self)@ == old(self)@.abandon(),
    {
        self.items.clear();
        self.abandoned = true;
    }

    /// The number of queued items.
    pub fn len(&self) -> (n: usize)
        ensures
            n == self@.pending.len(),
    {
        self.items.len()
    }

    /// Whether nothing is queued.
    pub fn is_empty(&self) -> (b: bool)
        ensures
            b == (self@.pending.len() == 0),
    {
        self.items.len() == 0
    }

    /// Whether the producer has closed its side.
    pub fn is_closed(&self) -> (b: bool)
        ensures
            b == self@.closed,
    {
        self.closed
    }
}

/// A queue with items delivers them oldest first, one per request.
pub proof fn lemma_deliveries_of_pending(q: QueueModel, count: nat)
    requires
        count <= q.pending.len(),
    ensures
        q.deliveries(count) == q.pending.take(count as int).map_values(
            |item: OcrWorkItem| Received::Item(item),
        ),
        q.deliveries(count).len() == count,
    decreases count,
{
    let wrap = |item: OcrWorkItem| Received::Item(item);
    if count == 0 {
        assert(q.deliveries(0) =~= q.pending.take(0).map_values(wrap));
    } else {
        let rest = q.recv();
        lemma_deliveries_of_pending(rest, (count - 1) as nat);
        assert(q.deliveries(count) =~= q.pending.take(count as int).map_values(wrap)) by {
            assert forall|i: int| 0 <= i < count implies q.deliveries(count)[i]
                == q.pending.take(count as int).map_values(wrap)[i] by {
                if i > 0 {
                    assert(rest.pending.take(count - 1)[i - 1] == q.pending[i]);
                }
            }
        }
    }
}

/// Closing the producer's side while items are queued loses none of them:
/// the consumer gets every queued item, oldest first, and only then learns
/// of the closure.
pub proof fn lemma_close_delivers_all(q: QueueModel)
    ensures
        q.close().deliveries(q.pending.len() + 1) == q.pending.map_values(
            |item: OcrWorkItem| Received::Item(item),
        ).push(Received::Closed),
    decreases q.pending.len(),
{
    let wrap = |item: OcrWorkItem| Received::Item(item);
    let closed = q.close();
    let n = q.pending.len();
    if n == 0 {
        assert(closed.recv().deliveries(0) =~= Seq::<Received>::empty());
        assert(closed.deliveries(1) =~= q.pending.map_values(wrap).push(Received::Closed));
    } else {
        let rest = QueueModel { pending: q.pending.drop_first(), ..q };
        lemma_close_delivers_all(rest);
        assert(closed.recv() == rest.close());
        assert(closed.deliveries(n + 1) =~= q.pending.map_values(wrap).push(Received::Closed));
    }
}

/// What an open queue is sent, it holds in the order of sending, behind
/// what it held before.
pub proof fn lemma_send_all_keeps_order(q: QueueModel, items: Seq<OcrWorkItem>)
    requires
        q.accepts(),
    ensures
        q.send_all(items) == (QueueModel { pending: q.pending + items, ..q }),
    decreases items.len(),
{
    if items.len() == 0 {
        assert(q.pending + items =~= q.pending);
    } else {
        lemma_send_all_keeps_order(q, items.drop_last());
        assert((q.pending + items.drop_last()).push(items.last()) =~= q.pending + items);
    }
}

} // verus!
