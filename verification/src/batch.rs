//! Change notifications that wait for the next flush, grouped by source.

use crate::event::{event_triple, TripleEvent, TripleEventView};
use crate::term::{triple_views, MalformedTerm, Triple, TripleView};
use vstd::prelude::*;

verus! {

/// The triples of one source as a mathematical value.
pub struct SourceBatchView {
    pub source: Seq<char>,
    pub triples: Seq<TripleView>,
}

/// A source and the triples to merge into its graph, in order.
#[derive(Debug, PartialEq, Eq)]
pub struct SourceBatch {
    pub source: String,
    pub triples: Vec<Triple>,
}

impl View for SourceBatch {
    type V = SourceBatchView;

    open spec fn view(&self) -> SourceBatchView {
        SourceBatchView { source: self.source@, triples: triple_views(self.triples@) }
    }
}

/// The views of a run of batches, in order.
pub open spec fn batch_views(batches: Seq<SourceBatch>) -> Seq<SourceBatchView> {
    batches.map_values(|b: SourceBatch| b@)
}

/// Whether the batch at `i` is the first that belongs to `source`.
pub open spec fn is_first_slot(batches: Seq<SourceBatchView>, source: Seq<char>, i: int) -> bool {
    &&& 0 <= i < batches.len()
    &&& batches[i].source == source
    &&& forall|j: int| 0 <= j < i ==> (#[trigger] batches[j]).source != source
}

/// Whether some batch belongs to `source`.
pub open spec fn holds_source(batches: Seq<SourceBatchView>, source: Seq<char>) -> bool {
    exists|i: int| is_first_slot(batches, source, i)
}

/// The place of the first batch of `source`, where there is one.
pub open spec fn slot_of(batches: Seq<SourceBatchView>, source: Seq<char>) -> int {
    choose|i: int| is_first_slot(batches, source, i)
}

/// A source has one first batch at most.
pub proof fn lemma_first_slot_is_slot(batches: Seq<SourceBatchView>, source: Seq<char>, i: int)
    requires
        is_first_slot(batches, source, i),
    ensures
        holds_source(batches, source),
        slot_of(batches, source) == i,
{
    let j = slot_of(batches, source);
    assert(is_first_slot(batches, source, j));
    if j < i {
        assert(batches[j].source != source);
    }
    if i < j {
        assert(batches[i].source != source);
    }
}

/// The triples that wait for `source`: none where it has no batch.
pub open spec fn pending_for(batches: Seq<SourceBatchView>, source: Seq<char>) -> Seq<TripleView> {
    if holds_source(batches, source) {
        batches[slot_of(batches, source)].triples
    } else {
        Seq::empty()
    }
}

/// No batch is empty and no source has two batches.
pub open spec fn well_formed(batches: Seq<SourceBatchView>) -> bool {
    &&& forall|i: int| 0 <= i < batches.len() ==> (#[trigger] batches[i]).triples.len() > 0
    &&& forall|i: int, j: int|
        0 <= i < j < batches.len() ==> (#[trigger] batches[i]).source != (
        #[trigger] batches[j]).source
}

/// `batches` after one more triple arrived for `source`: it goes to the end
/// of that source's batch, or opens a new batch behind all others.
pub open spec fn appended(
    batches: Seq<SourceBatchView>,
    source: Seq<char>,
    triple: TripleView,
) -> Seq<SourceBatchView> {
    if holds_source(batches, source) {
        let i = slot_of(batches, source);
        batches.update(i, SourceBatchView { source, triples: batches[i].triples.push(triple) })
    } else {
        batches.push(SourceBatchView { source, triples: seq![triple] })
    }
}

/// What the loop that owns the pending batch waits for.
pub enum EventView {
    Notification(TripleEventView),
    Tick,
}

/// What the loop does after an event.
pub enum ActionView {
    Idle,
    Dropped(MalformedTerm),
    Merge(Seq<SourceBatchView>),
}

/// What is pending after `event`: a well-formed notification adds its triple
/// under its source, a malformed one changes nothing, a tick clears all.
pub open spec fn next_pending(pending: Seq<SourceBatchView>, event: EventView) -> Seq<
    SourceBatchView,
> {
    match event {
        EventView::Notification(change) => match event_triple(change) {
            Ok(triple) => appended(pending, change.data.source, triple),
            Err(_) => pending,
        },
        EventView::Tick => Seq::empty(),
    }
}

/// What `event` asks of the loop: a tick with anything pending asks for the
/// merge of all of it, a malformed notification is reported, and nothing else
/// asks for anything.
pub open spec fn action_for(pending: Seq<SourceBatchView>, event: EventView) -> ActionView {
    match event {
        EventView::Notification(change) => match event_triple(change) {
            Ok(_) => ActionView::Idle,
            Err(reason) => ActionView::Dropped(reason),
        },
        EventView::Tick => if pending.len() > 0 {
            ActionView::Merge(pending)
        } else {
            ActionView::Idle
        },
    }
}

/// A change notification, or the tick of the flush timer.
#[derive(Debug, PartialEq, Eq)]
pub enum Event {
    Notification(TripleEvent),
    Tick,
}

impl View for Event {
    type V = EventView;

    open spec fn view(&self) -> EventView {
        match *self {
            Event::Notification(change) => EventView::Notification(change@),
            Event::Tick => EventView::Tick,
        }
    }
}

/// What the owner of the pending batch has to do next.
#[derive(Debug, PartialEq, Eq)]
pub enum Action {
    /// Nothing.
    Idle,
    /// Report a notification that was dropped for a malformed term.
    Dropped(MalformedTerm),
    /// Merge each batch into the graph of its source, one call per batch.
    Merge(Vec<SourceBatch>),
}

impl View for Action {
    type V = ActionView;

    open spec fn view(&self) -> ActionView {
        match *self {
            Action::Idle => ActionView::Idle,
            Action::Dropped(reason) => ActionView::Dropped(reason),
            Action::Merge(batches) => ActionView::Merge(batch_views(batches@)),
        }
    }
}

/// The seconds between two ticks of the flush timer.
pub const FLUSH_INTERVAL_SECS: u64 = 10;

/// The triples received since the last flush. Sources stand in the order in
/// which each was first heard of; the triples of a source stand in the order
/// of their arrival.
pub struct PendingBatch {
    entries: Vec<SourceBatch>,
}

impl View for PendingBatch {
    type V = Seq<SourceBatchView>;

    closed spec fn view(&self) -> Seq<SourceBatchView> {
        batch_views(self.entries@)
    }
}

impl PendingBatch {
    /// A batch with nothing pending.
    pub fn new() -> (fresh: Self)
        ensures
            fresh@ == Seq::<SourceBatchView>::empty(),
    {
        PendingBatch { entries: Vec::new() }
    }

    /// The number of sources with pending triples.
    pub fn len(&self) -> (n: usize)
        ensures
            n == self@.len(),
    {
        self.entries.len()
    }

    /// Puts `triple` behind what is pending for `source`.
    pub fn append(&mut self, source: String, triple: Triple)
        ensures
            final(self)@ == appended(old(self)@, source@, triple@),
            well_formed(old(self)@) ==> well_formed(final(self)@),
    {
        let mut i: usize = 0;
        while i < self.entries.len()
            invariant
                0 <= i <= self.entries.len(),
                *self == *old(self),
                forall|k: int| 0 <= k < i ==> (#[trigger] self@[k]).source != source@,
            decreases self.entries.len() - i,
        {
            if self.entries[i].source == source {
                proof {
                    assert(is_first_slot(self@, source@, i as int));
                    lemma_first_slot_is_slot(self@, source@, i as int);
                }
                self.entries[i].triples.push(triple);
                proof {
                    let before = old(self).entries@;
                    let after = self.entries@;
                    assert(after.len() == before.len());
                    assert(after[i as int].source == before[i as int].source);
                    assert(after[i as int].triples@ == before[i as int].triples@.push(triple));
                    assert(forall|k: int| 0 <= k < after.len() && k != i ==> after[k] == before[k]);
                    assert(triple_views(after[i as int].triples@) =~= triple_views(
                        before[i as int].triples@,
                    ).push(triple@));
                    assert(self@ =~= appended(old(self)@, source@, triple@));
                }
                return ;
            }
            i += 1;
        }
        proof {
            assert(!holds_source(self@, source@));
        }
        self.entries.push(SourceBatch { source, triples: vec![triple] });
        proof {
            let added = self.entries@.last();
            assert(triple_views(added.triples@) =~= seq![triple@]);
            assert(self@ =~= appended(old(self)@, source@, triple@));
        }
    }

    /// Takes in one change notification. A row with a malformed term is
    /// refused and leaves the batch as it was.
    pub fn record(&mut self, change: &TripleEvent) -> (outcome: Result<(), MalformedTerm>)
        ensures
            final(self)@ == next_pending(old(self)@, EventView::Notification(change@)),
            match outcome {
                Ok(_) => event_triple(change@) is Ok,
                Err(reason) => event_triple(change@) == Err::<TripleView, MalformedTerm>(reason),
            },
            well_formed(old(self)@) ==> well_formed(final(self)@),
    {
        match change.triple() {
            Ok(triple) => {
                self.append(change.data.source.clone(), triple);
                Ok(())
            },
            Err(reason) => Err(reason),
        }
    }

    /// Takes out all that is pending, and leaves nothing behind.
    pub fn drain(&mut self) -> (out: Vec<SourceBatch>)
        ensures
            batch_views(out@) == old(self)@,
            final(self)@ == Seq::<SourceBatchView>::empty(),
    {
        let mut out: Vec<SourceBatch> = Vec::new();
        std::mem::swap(&mut self.entries, &mut out);
        out
    }
}

impl PendingBatch {
    /// One turn of the loop that owns the batch: takes `event` in and says
    /// what is to be done.
    pub fn step(&mut self, event: Event) -> (action: Action)
        ensures
            final(self)@ == next_pending(old(self)@, event@),
            action@ == action_for(old(self)@, event@),
            well_formed(old(self)@) ==> well_formed(final(self)@),
    {
        match event {
            Event::Notification(change) => match self.record(&change) {
                Ok(_) => Action::Idle,
                Err(reason) => Action::Dropped(reason),
            },
            Event::Tick => {
                if self.len() > 0 {
                    Action::Merge(self.drain())
                } else {
                    Action::Idle
                }
            },
        }
    }
}

/// A source without a first batch has no batch at all.
pub proof fn lemma_absent_source(batches: Seq<SourceBatchView>, source: Seq<char>, i: int)
    requires
        !holds_source(batches, source),
        0 <= i < batches.len(),
    ensures
        batches[i].source != source,
    decreases i,
{
    if batches[i].source == source {
        if forall|j: int| 0 <= j < i ==> (#[trigger] batches[j]).source != source {
            assert(is_first_slot(batches, source, i));
        } else {
            let j = choose|j: int| 0 <= j < i && (#[trigger] batches[j]).source == source;
            lemma_absent_source(batches, source, j);
        }
    }
}

/// A triple that arrives for a source goes behind all that is pending for
/// that source.
pub proof fn lemma_appended_same_source(
    batches: Seq<SourceBatchView>,
    source: Seq<char>,
    triple: TripleView,
)
    ensures
        pending_for(appended(batches, source, triple), source) == pending_for(
            batches,
            source,
        ).push(triple),
{
    let after = appended(batches, source, triple);
    if holds_source(batches, source) {
        let i = slot_of(batches, source);
        assert(is_first_slot(batches, source, i));
        assert(is_first_slot(after, source, i));
        lemma_first_slot_is_slot(after, source, i);
    } else {
        let n = batches.len() as int;
        assert forall|j: int| 0 <= j < n implies (#[trigger] after[j]).source != source by {
            lemma_absent_source(batches, source, j);
        }
        assert(is_first_slot(after, source, n));
        lemma_first_slot_is_slot(after, source, n);
        assert(seq![triple] == Seq::<TripleView>::empty().push(triple));
    }
}

/// A triple that arrives for a source leaves what is pending for every
/// other source as it was.
pub proof fn lemma_appended_other_source(
    batches: Seq<SourceBatchView>,
    source: Seq<char>,
    triple: TripleView,
    other: Seq<char>,
)
    requires
        other != source,
    ensures
        pending_for(appended(batches, source, triple), other) == pending_for(batches, other),
{
    let after = appended(batches, source, triple);
    assert(batches.len() <= after.len());
    assert(forall|j: int| 0 <= j < batches.len() ==> (#[trigger] after[j]).source == batches[j].source);
    if holds_source(batches, other) {
        let k = slot_of(batches, other);
        assert(is_first_slot(batches, other, k));
        assert(is_first_slot(after, other, k));
        lemma_first_slot_is_slot(after, other, k);
    } else if holds_source(after, other) {
        let k = slot_of(after, other);
        assert(is_first_slot(after, other, k));
        if holds_source(batches, source) {
            assert(after.len() == batches.len());
        } else {
            assert(after.last().source == source);
        }
        assert(forall|j: int|
            0 <= j < batches.len() ==> (#[trigger] batches[j]).source == after[j].source);
        assert(is_first_slot(batches, other, k));
    }
}

/// No arrival empties a batch or gives a source a second one.
pub proof fn lemma_appended_well_formed(
    batches: Seq<SourceBatchView>,
    source: Seq<char>,
    triple: TripleView,
)
    requires
        well_formed(batches),
    ensures
        well_formed(appended(batches, source, triple)),
{
    let after = appended(batches, source, triple);
    if holds_source(batches, source) {
        let i = slot_of(batches, source);
        assert(is_first_slot(batches, source, i));
        assert(forall|j: int| 0 <= j < after.len() ==> (#[trigger] after[j]).source == batches[j].source);
    } else {
        assert forall|j: int| 0 <= j < batches.len() implies (#[trigger] after[j]).source
            != source by {
            lemma_absent_source(batches, source, j);
        }
    }
}

/// Whatever the event, a well-formed batch stays well formed, and a merge
/// is never asked for without triples: it names at least one source, and
/// each of its batches holds at least one triple.
pub proof fn lemma_merge_is_never_empty(pending: Seq<SourceBatchView>, event: EventView)
    requires
        well_formed(pending),
    ensures
        well_formed(next_pending(pending, event)),
        action_for(pending, event) matches ActionView::Merge(batches) ==> batches.len() > 0
            && well_formed(batches),
{
    if let EventView::Notification(change) = event {
        if let Ok(triple) = event_triple(change) {
            lemma_appended_well_formed(pending, change.data.source, triple);
        }
    }
}

/// Two ticks with no notification between them: the second asks for nothing
/// and leaves nothing pending.
pub proof fn lemma_idle_without_traffic(pending: Seq<SourceBatchView>)
    ensures
        action_for(next_pending(pending, EventView::Tick), EventView::Tick) == ActionView::Idle,
        next_pending(next_pending(pending, EventView::Tick), EventView::Tick)
            == Seq::<SourceBatchView>::empty(),
{
}

/// Only a tick asks for a merge: no notification reaches the graph before
/// the next tick.
pub proof fn lemma_only_a_tick_merges(pending: Seq<SourceBatchView>, event: EventView)
    ensures
        action_for(pending, event) is Merge ==> event is Tick,
{
}

/// What is pending after a run of events, taken in one after the other.
pub open spec fn pending_after(pending: Seq<SourceBatchView>, events: Seq<EventView>) -> Seq<
    SourceBatchView,
>
    decreases events.len(),
{
    if events.len() == 0 {
        pending
    } else {
        next_pending(pending_after(pending, events.drop_last()), events.last())
    }
}

/// Whether a run of events holds notifications only.
pub open spec fn without_tick(events: Seq<EventView>) -> bool {
    forall|i: int| 0 <= i < events.len() ==> (#[trigger] events[i]) is Notification
}

/// Until the next tick, what is pending for a source only grows at its end.
pub proof fn lemma_pending_grows(
    pending: Seq<SourceBatchView>,
    events: Seq<EventView>,
    source: Seq<char>,
)
    requires
        without_tick(events),
    ensures
        pending_for(pending, source).is_prefix_of(
            pending_for(pending_after(pending, events), source),
        ),
    decreases events.len(),
{
    if events.len() > 0 {
        let earlier = events.drop_last();
        assert(without_tick(earlier)) by {
            assert forall|i: int| 0 <= i < earlier.len() implies (
            #[trigger] earlier[i]) is Notification by {
                assert(earlier[i] == events[i]);
            }
        }
        lemma_pending_grows(pending, earlier, source);
        let before = pending_after(pending, earlier);
        assert(events.last() == events[events.len() - 1]);
        if let EventView::Notification(change) = events.last() {
            if let Ok(triple) = event_triple(change) {
                if change.data.source == source {
                    lemma_appended_same_source(before, source, triple);
                } else {
                    lemma_appended_other_source(before, change.data.source, triple, source);
                }
            }
        }
    }
}

/// A well-formed notification is part of the very next flush: whatever
/// notifications follow it, the next tick asks for a merge of all that is
/// pending, in which the triple stands under its source, behind what was
/// pending for that source when it arrived.
pub proof fn lemma_notification_reaches_next_flush(
    pending: Seq<SourceBatchView>,
    change: TripleEventView,
    later: Seq<EventView>,
)
    requires
        event_triple(change) is Ok,
        without_tick(later),
    ensures
        ({
            let at_tick = pending_after(
                next_pending(pending, EventView::Notification(change)),
                later,
            );
            let place = pending_for(pending, change.data.source).len() as int;
            &&& action_for(at_tick, EventView::Tick) == ActionView::Merge(at_tick)
            &&& place < pending_for(at_tick, change.data.source).len()
            &&& pending_for(at_tick, change.data.source)[place] == event_triple(change)->Ok_0
        }),
{
    let source = change.data.source;
    let triple = event_triple(change)->Ok_0;
    let taken = next_pending(pending, EventView::Notification(change));
    lemma_appended_same_source(pending, source, triple);
    lemma_pending_grows(taken, later, source);
    let at_tick = pending_after(taken, later);
    let place = pending_for(pending, source).len() as int;
    assert(pending_for(taken, source)[place] == triple);
    assert(pending_for(at_tick, source)[place] == pending_for(taken, source)[place]);
    assert(holds_source(at_tick, source));
    assert(is_first_slot(at_tick, source, slot_of(at_tick, source)));
}

} // verus!
