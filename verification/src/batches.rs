//! The batch queue: many submitters hand in lists of items, one consumer
//! drains what is queued, has the whole batch processed at once and cuts the
//! results back into one segment per submitter.
//!
//! The waiting and the processing happen outside; this module holds what the
//! consumer decides, as a function from its state and an event to its next
//! state and an action.

use vstd::prelude::*;
use crate::segments::{
    counts_of, counts_view, covers, flatten, flattened, nested_view, reassemble, segments, total,
};

verus! {

/// The consumer of a batch queue between two of its steps.
#[derive(Debug, PartialEq, Eq)]
pub enum BatchConsumer<E> {
    /// Nothing is queued; the consumer waits for a first submission.
    Waiting,
    /// A batch is being formed from what is queued right now.
    Draining(Vec<Vec<E>>),
    /// The batch is being processed; the counts of its submissions are kept.
    Processing(Vec<usize>),
    /// The queue is closed and the consumer has left its loop.
    Stopped,
}

/// What the consumer learns from outside.
#[derive(Debug, PartialEq, Eq)]
pub enum ConsumerEvent<E, R> {
    /// A submission was taken from the queue.
    Received(Vec<E>),
    /// The queue holds nothing right now.
    QueueEmpty,
    /// The queue is closed: no submission will come any more.
    QueueClosed,
    /// The processing function has returned.
    Processed(Vec<R>),
}

/// What the consumer asks for next.
#[derive(Debug, PartialEq, Eq)]
pub enum ConsumerAction<E, R> {
    /// Take another submission from the queue without waiting.
    PollItem,
    /// Run the processing function once on these items.
    Process(Vec<E>),
    /// Hand each submitter its segment, in the order of the submissions, and
    /// wait for the next first submission.
    Deliver(Vec<Vec<R>>),
    /// Leave the loop.
    Stop,
}

/// What a [`BatchConsumer`] holds.
pub enum ConsumerView<E> {
    Waiting,
    Draining(Seq<Seq<E>>),
    Processing(Seq<int>),
    Stopped,
}

/// What a [`ConsumerAction`] holds.
pub enum ActionView<E, R> {
    PollItem,
    Process(Seq<E>),
    Deliver(Seq<Seq<R>>),
    Stop,
}

impl<E> View for BatchConsumer<E> {
    type V = ConsumerView<E>;

    open spec fn view(&self) -> ConsumerView<E> {
        match *self {
            BatchConsumer::Waiting => ConsumerView::Waiting,
            BatchConsumer::Draining(batch) => ConsumerView::Draining(nested_view(batch@)),
            BatchConsumer::Processing(counts) => ConsumerView::Processing(counts_view(counts@)),
            BatchConsumer::Stopped => ConsumerView::Stopped,
        }
    }
}

impl<E, R> View for ConsumerAction<E, R> {
    type V = ActionView<E, R>;

    open spec fn view(&self) -> ActionView<E, R> {
        match *self {
            ConsumerAction::PollItem => ActionView::PollItem,
            ConsumerAction::Process(items) => ActionView::Process(items@),
            ConsumerAction::Deliver(cut) => ActionView::Deliver(nested_view(cut@)),
            ConsumerAction::Stop => ActionView::Stop,
        }
    }
}

/// Whether an event can occur in a state. While waiting, a submission
/// arrives or the queue closes; while draining, another submission is
/// there, or none is, or the queue is closed; while processing, the
/// processing function returns, with a result for every item at least.
pub open spec fn accepts<E, R>(state: ConsumerView<E>, event: ConsumerEvent<E, R>) -> bool {
    match state {
        ConsumerView::Waiting => event is Received || event is QueueClosed,
        ConsumerView::Draining(_) => event is Received || event is QueueEmpty || event
            is QueueClosed,
        ConsumerView::Processing(counts) => event matches ConsumerEvent::Processed(results)
            && total(counts) <= results.len(),
        ConsumerView::Stopped => false,
    }
}

/// The state after an event.
pub open spec fn next_state<E, R>(
    state: ConsumerView<E>,
    event: ConsumerEvent<E, R>,
) -> ConsumerView<E> {
    match state {
        ConsumerView::Waiting => match event {
            ConsumerEvent::Received(items) => ConsumerView::Draining(seq![items@]),
            _ => ConsumerView::Stopped,
        },
        ConsumerView::Draining(batch) => match event {
            ConsumerEvent::Received(items) => ConsumerView::Draining(batch.push(items@)),
            _ => ConsumerView::Processing(counts_of(batch)),
        },
        ConsumerView::Processing(_) => ConsumerView::Waiting,
        ConsumerView::Stopped => ConsumerView::Stopped,
    }
}

/// The action that answers an event.
pub open spec fn action_for<E, R>(
    state: ConsumerView<E>,
    event: ConsumerEvent<E, R>,
) -> ActionView<E, R> {
    match state {
        ConsumerView::Waiting => match event {
            ConsumerEvent::Received(_) => ActionView::PollItem,
            _ => ActionView::Stop,
        },
        ConsumerView::Draining(batch) => match event {
            ConsumerEvent::Received(_) => ActionView::PollItem,
            _ => ActionView::Process(flattened(batch)),
        },
        ConsumerView::Processing(counts) => match event {
            ConsumerEvent::Processed(results) => ActionView::Deliver(segments(results@, counts)),
            _ => ActionView::Stop,
        },
        ConsumerView::Stopped => ActionView::Stop,
    }
}

impl<E> BatchConsumer<E> {
    /// A consumer that waits for its first submission.
    pub fn new() -> (consumer: BatchConsumer<E>)
        ensures
            consumer@ == ConsumerView::<E>::Waiting,
    {
        BatchConsumer::Waiting
    }

    /// Whether the consumer can take this event in its state.
    pub fn can_take<R>(&self, event: &ConsumerEvent<E, R>) -> (ok: bool)
        ensures
            ok == accepts(self@, *event),
    {
        match self {
            BatchConsumer::Waiting => match event {
                ConsumerEvent::Received(_) => true,
                ConsumerEvent::QueueClosed => true,
                _ => false,
            },
            BatchConsumer::Draining(_) => match event {
                ConsumerEvent::Processed(_) => false,
                _ => true,
            },
            BatchConsumer::Processing(counts) => match event {
                ConsumerEvent::Processed(results) => covers(counts, results.len()),
                _ => false,
            },
            BatchConsumer::Stopped => false,
        }
    }

    /// One step of the consumer: the state after `event` and the action that
    /// answers it.
    pub fn step<R>(
        self,
        event: ConsumerEvent<E, R>,
    ) -> (out: (BatchConsumer<E>, ConsumerAction<E, R>))
        requires
            accepts(self@, event),
        ensures
            out.0@ == next_state(self@, event),
            out.1@ == action_for(self@, event),
    {
        match self {
            BatchConsumer::Waiting => match event {
                ConsumerEvent::Received(items) => {
                    let mut batch: Vec<Vec<E>> = Vec::new();
                    batch.push(items);
                    assert(nested_view(batch@) =~= seq![items@]);
                    (BatchConsumer::Draining(batch), ConsumerAction::PollItem)
                },
                _ => (BatchConsumer::Stopped, ConsumerAction::Stop),
            },
            BatchConsumer::Draining(batch) => match event {
                ConsumerEvent::Received(items) => {
                    let ghost before = nested_view(batch@);
                    let mut batch = batch;
                    batch.push(items);
                    assert(nested_view(batch@) =~= before.push(items@));
                    (BatchConsumer::Draining(batch), ConsumerAction::PollItem)
                },
                _ => {
                    let (counts, flat) = flatten(batch);
                    (BatchConsumer::Processing(counts), ConsumerAction::Process(flat))
                },
            },
            BatchConsumer::Processing(counts) => match event {
                ConsumerEvent::Processed(results) => {
                    let cut = reassemble(results, &counts);
                    (BatchConsumer::Waiting, ConsumerAction::Deliver(cut))
                },
                _ => (BatchConsumer::Stopped, ConsumerAction::Stop),
            },
            BatchConsumer::Stopped => (BatchConsumer::Stopped, ConsumerAction::Stop),
        }
    }
}

/// Processing is serial: the consumer asks for the processing function only
/// when it leaves the draining state for the processing state, and while it
/// is in the processing state the one event it takes is the function's
/// return, which it answers with a delivery. So no second run starts before
/// the first has returned.
pub proof fn law_serial_processing<E, R>(state: ConsumerView<E>, event: ConsumerEvent<E, R>)
    requires
        accepts(state, event),
    ensures
        action_for(state, event) is Process <==> next_state(state, event) is Processing,
        action_for(state, event) is Process ==> state is Draining,
        state is Processing ==> event is Processed && action_for(state, event) is Deliver
            && next_state(state, event) is Waiting,
{
}

/// A batch is everything that was received since the consumer last waited,
/// in the order of arrival, and it is processed whole: after a first
/// submission and `more` further ones, an empty queue makes the consumer ask
/// for one run on the flat list of all of them.
pub proof fn law_batch_union<E, R>(batch: Seq<Seq<E>>, event: ConsumerEvent<E, R>)
    requires
        event is QueueEmpty || event is QueueClosed,
    ensures
        action_for(ConsumerView::Draining(batch), event) == ActionView::<E, R>::Process(
            flattened(batch),
        ),
        next_state(ConsumerView::Draining(batch), event) == ConsumerView::<E>::Processing(
            counts_of(batch),
        ),
{
}

} // verus!
