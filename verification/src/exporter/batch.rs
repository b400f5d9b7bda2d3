//! The decisions of the background batch worker: which spans go out together,
//! and when.
//!
//! The worker hands over a batch when it is full, when the schedule delay after
//! its first span is over, and when no more spans will come.

use vstd::prelude::*;

use crate::span::FinishedSpan;

verus! {

/// A failure is logged again only when the last log lies longer back than this.
pub const LOG_INTERVAL_NANOS: u128 = 30_000_000_000;

/// What the worker waits for.
pub enum WorkerEvent {
    /// A span arrived.
    Span(FinishedSpan),
    /// The schedule delay is over.
    Tick,
    /// No more spans will come.
    Closed,
}

/// What the worker does next.
pub struct WorkerAction {
    /// The batch to export, if any; never an empty one.
    pub flush: Option<Vec<FinishedSpan>>,
    /// Whether the schedule delay starts now.
    pub reset_timer: bool,
    /// Whether the worker is done.
    pub stop: bool,
}

/// The batch that the worker collects.
pub struct BatchWorker {
    batch: Vec<FinishedSpan>,
    max_batch: usize,
    pending: bool,
}

/// Whether a batch is large enough to go out.
pub open spec fn is_full(batch: Seq<FinishedSpan>, max_batch: nat) -> bool {
    batch.len() > 0 && batch.len() >= max_batch
}

/// What is collected after an event.
pub open spec fn kept_after(
    batch: Seq<FinishedSpan>,
    max_batch: nat,
    event: WorkerEvent,
) -> Seq<FinishedSpan> {
    match event {
        WorkerEvent::Span(span) => if is_full(batch.push(span), max_batch) {
            seq![]
        } else {
            batch.push(span)
        },
        _ => seq![],
    }
}

/// What goes out on an event; empty when nothing does.
pub open spec fn sent_on(
    batch: Seq<FinishedSpan>,
    max_batch: nat,
    event: WorkerEvent,
) -> Seq<FinishedSpan> {
    match event {
        WorkerEvent::Span(span) => if is_full(batch.push(span), max_batch) {
            batch.push(span)
        } else {
            seq![]
        },
        _ => batch,
    }
}

impl BatchWorker {
    /// The spans collected so far, in the order in which they came.
    pub closed spec fn collected(self) -> Seq<FinishedSpan> {
        self.batch@
    }

    /// Most spans in one batch.
    pub closed spec fn limit(self) -> nat {
        self.max_batch as nat
    }

    /// Whether the worker waits for the schedule delay.
    pub closed spec fn waiting(self) -> bool {
        self.pending
    }

    /// The worker waits for the schedule delay exactly while it has collected
    /// something, and what it has collected is not full.
    pub open spec fn wf(self) -> bool {
        &&& self.waiting() <==> self.collected().len() > 0
        &&& !is_full(self.collected(), self.limit())
    }

    /// A worker with nothing collected.
    pub fn new(max_batch: usize) -> (r: BatchWorker)
        ensures
            r.wf(),
            r.collected() == Seq::<FinishedSpan>::empty(),
            r.limit() == max_batch,
    {
        BatchWorker { batch: Vec::new(), max_batch, pending: false }
    }

    /// Whether the worker waits for the schedule delay.
    pub fn has_pending_batch(&self) -> (r: bool)
        ensures
            r == self.waiting(),
    {
        self.pending
    }

    /// Takes the collected spans out, if there are any.
    fn take_batch(&mut self) -> (r: Option<Vec<FinishedSpan>>)
        ensures
            final(self).collected() == Seq::<FinishedSpan>::empty(),
            final(self).limit() == old(self).limit(),
            !final(self).waiting(),
            match r {
                Some(batch) => batch@ == old(self).collected() && batch@.len() > 0,
                None => old(self).collected().len() == 0,
            },
    {
        self.pending = false;
        if self.batch.len() == 0 {
            assert(self.batch@ =~= Seq::<FinishedSpan>::empty());
            return None;
        }
        let mut batch: Vec<FinishedSpan> = Vec::new();
        std::mem::swap(&mut batch, &mut self.batch);
        Some(batch)
    }

    /// What to do on an event.
    ///
    /// A span that opens a batch starts the schedule delay. A full batch goes
    /// out at once, any other when the delay is over or no more spans come.
    pub fn on_event(&mut self, event: WorkerEvent) -> (r: WorkerAction)
        requires
            old(self).wf(),
        ensures
            final(self).wf(),
            final(self).limit() == old(self).limit(),
            final(self).collected() == kept_after(old(self).collected(), old(self).limit(), event),
            match r.flush {
                Some(batch) => batch@ == sent_on(old(self).collected(), old(self).limit(), event)
                    && batch@.len() > 0,
                None => sent_on(old(self).collected(), old(self).limit(), event).len() == 0,
            },
            r.reset_timer == (event is Span && old(self).collected().len() == 0),
            r.stop == (event is Closed),
    {
        match event {
            WorkerEvent::Span(span) => {
                let opens = self.batch.len() == 0;
                self.batch.push(span);
                self.pending = true;
                let flush = if self.batch.len() >= self.max_batch {
                    self.take_batch()
                } else {
                    None
                };
                WorkerAction { flush, reset_timer: opens, stop: false }
            },
            WorkerEvent::Tick => {
                let flush = self.take_batch();
                WorkerAction { flush, reset_timer: false, stop: false }
            },
            WorkerEvent::Closed => {
                let flush = self.take_batch();
                WorkerAction { flush, reset_timer: false, stop: true }
            },
        }
    }
}

/// Whether a failed export is logged, given how long ago the last one was.
pub fn should_log(nanos_since_last: Option<u128>) -> (r: bool)
    ensures
        r == (match nanos_since_last {
            Some(n) => n > LOG_INTERVAL_NANOS,
            None => true,
        }),
{
    match nanos_since_last {
        Some(n) => n > LOG_INTERVAL_NANOS,
        None => true,
    }
}

/// The spans among some events, in order.
pub open spec fn spans_in(events: Seq<WorkerEvent>) -> Seq<FinishedSpan>
    decreases events.len(),
{
    if events.len() == 0 {
        seq![]
    } else {
        match events.last() {
            WorkerEvent::Span(span) => spans_in(events.drop_last()).push(span),
            _ => spans_in(events.drop_last()),
        }
    }
}

/// What is collected after some events, from an empty start.
pub open spec fn kept_by(events: Seq<WorkerEvent>, max_batch: nat) -> Seq<FinishedSpan>
    decreases events.len(),
{
    if events.len() == 0 {
        seq![]
    } else {
        kept_after(kept_by(events.drop_last(), max_batch), max_batch, events.last())
    }
}

/// The batches that go out during some events, from an empty start.
pub open spec fn batches_of(events: Seq<WorkerEvent>, max_batch: nat) -> Seq<Seq<FinishedSpan>>
    decreases events.len(),
{
    if events.len() == 0 {
        seq![]
    } else {
        let before = batches_of(events.drop_last(), max_batch);
        let sent = sent_on(kept_by(events.drop_last(), max_batch), max_batch, events.last());
        if sent.len() > 0 {
            before.push(sent)
        } else {
            before
        }
    }
}

/// No span is lost, doubled or reordered: the batches that went out, one after
/// the other, and then what is still collected, are the spans that came.
pub proof fn law_no_span_is_lost(events: Seq<WorkerEvent>, max_batch: nat)
    ensures
        batches_of(events, max_batch).flatten() + kept_by(events, max_batch) == spans_in(events),
    decreases events.len(),
{
    if events.len() == 0 {
        assert(batches_of(events, max_batch).flatten() =~= seq![]);
    } else {
        let init = events.drop_last();
        law_no_span_is_lost(init, max_batch);
        let before = batches_of(init, max_batch);
        let kept = kept_by(init, max_batch);
        let sent = sent_on(kept, max_batch, events.last());
        if sent.len() > 0 {
            lemma_flatten_push(before, sent);
        }
        let after = batches_of(events, max_batch).flatten() + kept_by(events, max_batch);
        match events.last() {
            WorkerEvent::Span(span) => {
                assert(before.flatten() + kept.push(span) =~= (before.flatten() + kept).push(span));
                assert(after =~= before.flatten() + kept.push(span));
            },
            _ => {
                assert(after =~= before.flatten() + kept);
            },
        }
    }
}

proof fn lemma_flatten_push(batches: Seq<Seq<FinishedSpan>>, last: Seq<FinishedSpan>)
    ensures
        batches.push(last).flatten() == batches.flatten() + last,
{
    let all = batches.push(last);
    assert(all.drop_last() =~= batches);
    all.lemma_flatten_and_flatten_alt_are_equivalent();
    batches.lemma_flatten_and_flatten_alt_are_equivalent();
}

/// No batch that goes out is empty, and none is larger than the limit, or than
/// one span where the limit is smaller. What is still collected is below the
/// limit.
pub proof fn law_batches_are_bounded(events: Seq<WorkerEvent>, max_batch: nat)
    ensures
        forall|i: int|
            0 <= i < batches_of(events, max_batch).len() ==> 1 <= (#[trigger] batches_of(
                events,
                max_batch,
            )[i]).len() && (batches_of(events, max_batch)[i].len() <= max_batch || batches_of(
                events,
                max_batch,
            )[i].len() == 1),
        kept_by(events, max_batch).len() > 0 ==> kept_by(events, max_batch).len() < max_batch,
    decreases events.len(),
{
    if events.len() > 0 {
        let init = events.drop_last();
        law_batches_are_bounded(init, max_batch);
        let before = batches_of(init, max_batch);
        let out = batches_of(events, max_batch);
        assert forall|i: int| 0 <= i < out.len() implies 1 <= (#[trigger] out[i]).len() && (
        out[i].len() <= max_batch || out[i].len() == 1) by {
            if i < before.len() {
                assert(out[i] == before[i]);
            }
        }
    }
}

/// After the last event nothing is left behind: every span has gone out.
pub proof fn law_close_drains(events: Seq<WorkerEvent>, max_batch: nat)
    requires
        events.len() > 0,
        events.last() is Closed,
    ensures
        kept_by(events, max_batch).len() == 0,
        batches_of(events, max_batch).flatten() == spans_in(events),
{
    law_no_span_is_lost(events, max_batch);
    assert(batches_of(events, max_batch).flatten() + kept_by(events, max_batch) =~= batches_of(
        events,
        max_batch,
    ).flatten());
}

/// A span that does not fill the batch waits behind the others, and nothing goes
/// out; one that fills it goes out with all of them. When the delay is over, and
/// when no more spans come, all that is collected goes out.
pub proof fn law_batch_step(batch: Seq<FinishedSpan>, max_batch: nat, span: FinishedSpan)
    ensures
        batch.len() + 1 < max_batch ==> sent_on(batch, max_batch, WorkerEvent::Span(span)).len()
            == 0 && kept_after(batch, max_batch, WorkerEvent::Span(span)) == batch.push(span),
        batch.len() + 1 >= max_batch ==> sent_on(batch, max_batch, WorkerEvent::Span(span))
            == batch.push(span) && kept_after(batch, max_batch, WorkerEvent::Span(span)).len()
            == 0,
        sent_on(batch, max_batch, WorkerEvent::Tick) == batch,
        kept_after(batch, max_batch, WorkerEvent::Tick).len() == 0,
        sent_on(batch, max_batch, WorkerEvent::Closed) == batch,
        kept_after(batch, max_batch, WorkerEvent::Closed).len() == 0,
{
}

/// The first failure is logged, and a later one only when more than thirty seconds
/// have passed since the last that was.
pub proof fn law_log_interval(since: u128, r: bool)
    ensures
        call_ensures(should_log, (None,), r) ==> r,
        call_ensures(should_log, (Some(since),), r) ==> (r <==> since > 30 * 1_000_000_000),
{
}

/// Whatever the worker does on an event: the delay starts exactly with the span
/// that opens a batch, the worker is done exactly when no more spans come, and
/// what it hands over and what it keeps are together what it had and the span
/// that came, in order.
pub proof fn law_worker_actions(event: WorkerEvent, r: WorkerAction)
    ensures
        forall|worker: &mut BatchWorker|
            #[trigger] call_ensures(BatchWorker::on_event, (worker, event), r) ==> {
                let sent = match r.flush {
                    Some(batch) => batch@,
                    None => seq![],
                };
                &&& r.reset_timer <==> event is Span && worker.collected().len() == 0
                &&& r.stop <==> event is Closed
                &&& r.flush matches Some(batch) ==> batch@.len() > 0
                &&& event matches WorkerEvent::Span(span) ==> sent + final(worker).collected()
                    == worker.collected().push(span)
                &&& !(event is Span) ==> sent == worker.collected()
                &&& !(event is Span) ==> final(worker).collected().len() == 0
                &&& final(worker).limit() == worker.limit()
            },
{
    assert forall|worker: &mut BatchWorker| #[trigger]
        call_ensures(BatchWorker::on_event, (worker, event), r) implies {
        let sent = match r.flush {
            Some(batch) => batch@,
            None => seq![],
        };
        &&& r.reset_timer <==> event is Span && worker.collected().len() == 0
        &&& r.stop <==> event is Closed
        &&& r.flush matches Some(batch) ==> batch@.len() > 0
        &&& event matches WorkerEvent::Span(span) ==> sent + final(worker).collected()
            == worker.collected().push(span)
        &&& !(event is Span) ==> sent == worker.collected()
        &&& !(event is Span) ==> final(worker).collected().len() == 0
        &&& final(worker).limit() == worker.limit()
    } by {
        let sent = match r.flush {
            Some(batch) => batch@,
            None => seq![],
        };
        assert(sent =~= sent_on(worker.collected(), worker.limit(), event));
        if let WorkerEvent::Span(span) = event {
            assert(sent + final(worker).collected() =~= worker.collected().push(span));
        }
    }
}

} // verus!
