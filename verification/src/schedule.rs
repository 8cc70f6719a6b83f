//! The block scheduler: one block of audio against the event batches that fall
//! into it.
//!
//! The batches cut the block into consecutive sample ranges. For each batch in
//! turn the scheduler hands the batch's events to the voice, in the order they
//! came, and then lets the voice render the batch's range. An event therefore
//! takes effect at the very sample its batch starts at, and the phase runs on
//! across the cuts.

use crate::oscillator::{Key, Oscillator, Sample, Voice};
use crate::output::ProcessError;
use vstd::prelude::*;

verus! {

/// A timed event, as far as the voice cares.
#[derive(Clone, Copy, Debug, PartialEq, Eq, Structural)]
pub enum NoteEvent {
    /// A key was pressed.
    NoteOn(Key),
    /// A key was released.
    NoteOff(Key),
    /// Any other kind of event; the voice ignores it.
    Other,
}

/// The events that fall on one sample offset, with the range of the block they
/// govern: the samples from `start` up to, not including, `end`.
#[derive(Clone, Debug, PartialEq, Eq)]
pub struct EventBatch {
    pub start: usize,
    pub end: usize,
    pub events: Vec<NoteEvent>,
}

/// The mathematical content of an [`EventBatch`].
pub struct BatchView {
    pub start: nat,
    pub end: nat,
    pub events: Seq<NoteEvent>,
}

impl View for EventBatch {
    type V = BatchView;

    open spec fn view(&self) -> BatchView {
        BatchView { start: self.start as nat, end: self.end as nat, events: self.events@ }
    }
}

impl BatchView {
    /// How many samples the batch governs.
    pub open spec fn len(self) -> nat {
        (self.end - self.start) as nat
    }
}

/// The views of a run of batches, in order.
pub open spec fn views(batches: Seq<EventBatch>) -> Seq<BatchView> {
    batches.map_values(|batch: EventBatch| batch@)
}

/// Whether `batches` cut a block of `block_len` samples exactly: the first
/// range starts at sample 0, each range ends where the next one starts, the
/// last one ends with the block, and the start offsets strictly increase. Only
/// the last range can be empty: a batch of events that fall on the block's end.
/// No batch at all fits the empty block and no other.
pub open spec fn is_partition(batches: Seq<BatchView>, block_len: nat) -> bool {
    if batches.len() == 0 {
        block_len == 0
    } else {
        &&& batches.first().start == 0
        &&& batches.last().end == block_len
        &&& forall|i: int| 0 <= i < batches.len() ==> (#[trigger] batches[i]).start <= batches[i].end
        &&& forall|i: int|
            0 < i < batches.len() ==> {
                &&& batches[i - 1].end == (#[trigger] batches[i]).start
                &&& batches[i - 1].start < batches[i].start
            }
    }
}

impl Voice {
    /// The voice after one event.
    pub open spec fn after_event(self, event: NoteEvent) -> Voice {
        match event {
            NoteEvent::NoteOn(key) => self.note_on(key),
            NoteEvent::NoteOff(_) => self.note_off(),
            NoteEvent::Other => self,
        }
    }

    /// The voice after a run of events, taken in order.
    pub open spec fn after_events(self, events: Seq<NoteEvent>) -> Voice
        decreases events.len(),
    {
        if events.len() == 0 {
            self
        } else {
            self.after_events(events.drop_last()).after_event(events.last())
        }
    }

    /// The voice that renders batch `i`: the voice as the batches before it
    /// left it, after the events of batch `i` itself.
    pub open spec fn entering(self, batches: Seq<BatchView>, i: int) -> Voice {
        self.after_batches(batches.take(i)).after_events(batches[i].events)
    }

    /// The voice after a run of batches: each batch's events, then its range
    /// rendered, batch after batch.
    pub open spec fn after_batches(self, batches: Seq<BatchView>) -> Voice
        decreases batches.len(),
    {
        if batches.len() == 0 {
            self
        } else {
            let last = batches.last();
            self.after_batches(batches.drop_last()).after_events(last.events).advance(last.len())
        }
    }

    /// The samples of a run of batches: what each batch's voice renders over
    /// the batch's range, one range after the other.
    pub open spec fn render_batches(self, batches: Seq<BatchView>) -> Seq<Sample>
        decreases batches.len(),
    {
        if batches.len() == 0 {
            Seq::empty()
        } else {
            let last = batches.last();
            self.render_batches(batches.drop_last()) + self.after_batches(
                batches.drop_last(),
            ).after_events(last.events).render(last.len())
        }
    }
}

/// Whether `batches` cut a block of `block_len` samples exactly.
pub fn partitions_block(batches: &[EventBatch], block_len: usize) -> (ok: bool)
    ensures
        ok == is_partition(views(batches@), block_len as nat),
{
    let count = batches.len();
    let ghost all = views(batches@);
    if count == 0 {
        return block_len == 0;
    }
    if batches[0].start != 0 {
        return false;
    }
    let mut i: usize = 0;
    while i < count
        invariant
            i <= count,
            count == batches@.len(),
            all == views(batches@),
            forall|k: int| 0 <= k < i ==> (#[trigger] all[k]).start <= all[k].end,
            forall|k: int|
                0 < k < i ==> {
                    &&& all[k - 1].end == (#[trigger] all[k]).start
                    &&& all[k - 1].start < all[k].start
                },
        decreases count - i,
    {
        let batch = &batches[i];
        if batch.start > batch.end {
            assert(all[i as int].start > all[i as int].end);
            return false;
        }
        if i > 0 {
            let before = &batches[i - 1];
            if before.end != batch.start || before.start >= batch.start {
                assert(all[i as int].start == batch.start);
                assert(all[i - 1].end == before.end);
                return false;
            }
        }
        i += 1;
    }
    batches[count - 1].end == block_len
}

/// Hands `events` to the voice, in order. Events that are no note events are
/// passed over.
pub fn apply_events<O: Oscillator + ?Sized>(osc: &mut O, events: &[NoteEvent])
    ensures
        final(osc).voice() == old(osc).voice().after_events(events@),
{
    let mut i: usize = 0;
    while i < events.len()
        invariant
            i <= events@.len(),
            osc.voice() == old(osc).voice().after_events(events@.take(i as int)),
        decreases events@.len() - i,
    {
        assert(events@.take(i + 1).drop_last() =~= events@.take(i as int));
        match events[i] {
            NoteEvent::NoteOn(key) => osc.handle_note_on(key),
            NoteEvent::NoteOff(key) => osc.handle_note_off(key),
            NoteEvent::Other => {},
        }
        i += 1;
    }
    assert(events@.take(i as int) =~= events@);
}

/// Lets the voice render the samples from `start` up to `end` of both buffers;
/// the samples outside that range stay as they are.
pub fn process_range<O: Oscillator + ?Sized>(
    osc: &mut O,
    left: &mut [Sample],
    right: &mut [Sample],
    start: usize,
    end: usize,
)
    requires
        start <= end <= old(left)@.len(),
        old(left)@.len() == old(right)@.len(),
    ensures
        final(left)@ == old(left)@.subrange(0, start as int) + old(osc).voice().render(
            (end - start) as nat,
        ) + old(left)@.subrange(end as int, old(left)@.len() as int),
        final(right)@ == old(right)@.subrange(0, start as int) + old(osc).voice().render(
            (end - start) as nat,
        ) + old(right)@.subrange(end as int, old(right)@.len() as int),
        final(osc).voice() == old(osc).voice().advance((end - start) as nat),
{
    let (_, left_tail) = left.split_at_mut(start);
    let (left_range, _) = left_tail.split_at_mut(end - start);
    let (_, right_tail) = right.split_at_mut(start);
    let (right_range, _) = right_tail.split_at_mut(end - start);
    osc.process(left_range, right_range);
}

/// Writing a range of a buffer right behind the part that is done extends the
/// part that is done by that range.
proof fn lemma_prefix_grows(before: Seq<Sample>, after: Seq<Sample>, done: int, end: int, range: Seq<Sample>)
    requires
        0 <= done <= end <= before.len(),
        range.len() == end - done,
        after == before.subrange(0, done) + range + before.subrange(end, before.len() as int),
    ensures
        after.len() == before.len(),
        after.subrange(0, end) == before.subrange(0, done) + range,
{
    assert(after.subrange(0, end) =~= before.subrange(0, done) + range);
}

impl Voice {
    /// One more batch: its voice renders its range behind what the batches
    /// before it rendered, and is moved on by the length of that range.
    pub proof fn lemma_batch_step(self, batches: Seq<BatchView>, i: int)
        requires
            0 <= i < batches.len(),
        ensures
            self.render_batches(batches.take(i + 1)) == self.render_batches(batches.take(i))
                + self.entering(batches, i).render(batches[i].len()),
            self.after_batches(batches.take(i + 1)) == self.entering(batches, i).advance(
                batches[i].len(),
            ),
    {
        assert(batches.take(i + 1).drop_last() =~= batches.take(i));
        assert(batches.take(i + 1).last() == batches[i]);
    }
}

/// Runs one block: checks that `batches` cut the block exactly, then, batch
/// after batch, hands the batch's events to the voice and lets it render the
/// batch's range into both buffers.
///
/// Batches that do not cut the block exactly are refused before anything is
/// touched: the voice and both buffers stay as they were.
pub fn run_block<O: Oscillator + ?Sized>(
    osc: &mut O,
    left: &mut [Sample],
    right: &mut [Sample],
    batches: &[EventBatch],
) -> (result: Result<(), ProcessError>)
    requires
        old(left)@.len() == old(right)@.len(),
    ensures
        result is Ok <==> is_partition(views(batches@), old(left)@.len()),
        result is Err ==> result == Err::<(), ProcessError>(ProcessError::MalformedSchedule),
        result is Ok ==> {
            &&& final(osc).voice() == old(osc).voice().after_batches(views(batches@))
            &&& final(left)@ == old(osc).voice().render_batches(views(batches@))
            &&& final(right)@ == final(left)@
        },
        result is Err ==> {
            &&& final(osc).voice() == old(osc).voice()
            &&& final(left)@ == old(left)@
            &&& final(right)@ == old(right)@
        },
{
    let block_len = left.len();
    if !partitions_block(batches, block_len) {
        return Err(ProcessError::MalformedSchedule);
    }
    let ghost all = views(batches@);
    let ghost start_voice = osc.voice();
    let ghost mut done: nat = 0;
    let mut i: usize = 0;
    assert(left@.subrange(0, 0) =~= Seq::<Sample>::empty());
    assert(right@.subrange(0, 0) =~= Seq::<Sample>::empty());
    assert(all.take(0) =~= Seq::<BatchView>::empty());
    while i < batches.len()
        invariant
            i <= batches@.len(),
            all == views(batches@),
            is_partition(all, block_len as nat),
            left@.len() == block_len,
            right@.len() == block_len,
            done <= block_len,
            i < batches@.len() ==> all[i as int].start == done,
            i == batches@.len() ==> done == block_len,
            osc.voice() == start_voice.after_batches(all.take(i as int)),
            left@.subrange(0, done as int) == start_voice.render_batches(all.take(i as int)),
            right@.subrange(0, done as int) == left@.subrange(0, done as int),
        decreases batches@.len() - i,
    {
        let batch = &batches[i];
        let ghost this = all[i as int];
        proof {
            assert(this == batch@);
            assert(this.start <= this.end);
            assert(this.end <= block_len) by {
                if i + 1 < batches@.len() {
                    assert(all[i + 1 - 1].end == all[i + 1].start);
                    assert(all[i + 1].start <= all[i + 1].end);
                    assert(all[i + 1].start == this.end);
                    lemma_starts_bounded(all, block_len as nat, i + 1);
                }
            }
            start_voice.lemma_batch_step(all, i as int);
        }
        apply_events(osc, batch.events.as_slice());
        assert(osc.voice() == start_voice.entering(all, i as int));
        let ghost left_before = left@;
        let ghost right_before = right@;
        let ghost range = osc.voice().render(this.len());
        process_range(osc, left, right, batch.start, batch.end);
        proof {
            lemma_prefix_grows(left_before, left@, done as int, this.end as int, range);
            lemma_prefix_grows(right_before, right@, done as int, this.end as int, range);
            if i + 1 < batches@.len() {
                assert(all[i + 1 - 1].end == all[i + 1].start);
            }
            done = this.end;
        }
        i += 1;
    }
    proof {
        assert(all.take(i as int) =~= all);
        assert(left@.subrange(0, block_len as int) =~= left@);
        assert(right@.subrange(0, block_len as int) =~= right@);
    }
    Ok(())
}

/// In batches that cut a block exactly, no range starts beyond the block.
pub proof fn lemma_starts_bounded(batches: Seq<BatchView>, block_len: nat, i: int)
    requires
        is_partition(batches, block_len),
        0 <= i < batches.len(),
    ensures
        batches[i].start <= batches[i].end <= block_len,
    decreases batches.len() - i,
{
    if i + 1 < batches.len() {
        lemma_starts_bounded(batches, block_len, i + 1);
        assert(batches[i + 1 - 1].end == batches[i + 1].start);
    }
}

/// In batches that cut a block exactly, an earlier range ends no later than a
/// later one starts.
pub proof fn lemma_ranges_ordered(batches: Seq<BatchView>, block_len: nat, a: int, b: int)
    requires
        is_partition(batches, block_len),
        0 <= a < b < batches.len(),
    ensures
        batches[a].end <= batches[b].start,
        batches[a].start < batches[b].start,
    decreases b - a,
{
    assert(batches[b - 1].end == batches[b].start);
    assert(batches[b - 1].start <= batches[b - 1].end);
    if a < b - 1 {
        lemma_ranges_ordered(batches, block_len, a, b - 1);
    }
}

/// Batches that cut a block exactly leave no gap and no duplicate: every
/// sample of the block lies in the range of one batch, the one returned, and
/// of no other.
pub proof fn lemma_one_batch_per_sample(batches: Seq<BatchView>, block_len: nat, j: int) -> (i: int)
    requires
        is_partition(batches, block_len),
        0 <= j < block_len,
    ensures
        0 <= i < batches.len(),
        batches[i].start <= j < batches[i].end,
        forall|k: int|
            0 <= k < batches.len() && (#[trigger] batches[k]).start <= j < batches[k].end ==> k
                == i,
{
    let i = lemma_find_batch(batches, block_len, j, batches.len() - 1);
    assert forall|k: int|
        0 <= k < batches.len() && (#[trigger] batches[k]).start <= j < batches[k].end implies k
        == i by {
        if k < i {
            lemma_ranges_ordered(batches, block_len, k, i);
        } else if i < k {
            lemma_ranges_ordered(batches, block_len, i, k);
        }
    }
    i
}

/// The batch whose range holds sample `j`, looked for from batch `last`
/// downwards.
proof fn lemma_find_batch(batches: Seq<BatchView>, block_len: nat, j: int, last: int) -> (i: int)
    requires
        is_partition(batches, block_len),
        0 <= last < batches.len(),
        0 <= j < batches[last].end,
    ensures
        0 <= i <= last,
        batches[i].start <= j < batches[i].end,
    decreases last,
{
    if batches[last].start <= j {
        last
    } else {
        assert(last > 0);
        assert(batches[last - 1].end == batches[last].start);
        lemma_find_batch(batches, block_len, j, last - 1)
    }
}

/// Batches that overlap, leave a gap, come out of order, start late or end
/// early do not cut the block exactly; the scheduler refuses them.
pub proof fn lemma_malformed_is_no_partition(batches: Seq<BatchView>, block_len: nat, i: int)
    requires
        0 <= i < batches.len(),
        ({
            ||| batches[0].start != 0
            ||| batches[batches.len() - 1].end != block_len
            ||| batches[i].start > batches[i].end
            ||| batches[i].end > block_len
            ||| i + 1 < batches.len() && batches[i].end > batches[i + 1].start
            ||| i + 1 < batches.len() && batches[i].end < batches[i + 1].start
            ||| i + 1 < batches.len() && batches[i].start >= batches[i + 1].start
        }),
    ensures
        !is_partition(batches, block_len),
{
    if is_partition(batches, block_len) {
        lemma_starts_bounded(batches, block_len, i);
        if i + 1 < batches.len() {
            assert(batches[i + 1 - 1].end == batches[i + 1].start);
        }
    }
}

impl Voice {
    /// A run of events keeps a well-formed voice well-formed.
    pub proof fn lemma_after_events_wf(self, events: Seq<NoteEvent>)
        requires
            self.wf(),
        ensures
            self.after_events(events).wf(),
            self.after_events(events).sample_rate == self.sample_rate,
        decreases events.len(),
    {
        if events.len() > 0 {
            self.lemma_after_events_wf(events.drop_last());
            let before = self.after_events(events.drop_last());
            match events.last() {
                NoteEvent::NoteOn(key) => before.lemma_wf_preserved(key, 0),
                NoteEvent::NoteOff(key) => before.lemma_wf_preserved(key, 0),
                NoteEvent::Other => {},
            }
        }
    }

    /// A run of batches keeps a well-formed voice well-formed.
    pub proof fn lemma_after_batches_wf(self, batches: Seq<BatchView>)
        requires
            self.wf(),
        ensures
            self.after_batches(batches).wf(),
            self.after_batches(batches).sample_rate == self.sample_rate,
        decreases batches.len(),
    {
        if batches.len() > 0 {
            self.lemma_after_batches_wf(batches.drop_last());
            let before = self.after_batches(batches.drop_last());
            before.lemma_after_events_wf(batches.last().events);
            before.after_events(batches.last().events).lemma_wf_preserved(
                Key::Unspecified,
                batches.last().len(),
            );
        }
    }

    /// What the first `i` batches of an exact cut render is as long as the
    /// part of the block before batch `i`; all of them render the whole block.
    pub proof fn lemma_rendered_len(self, batches: Seq<BatchView>, block_len: nat, i: int)
        requires
            is_partition(batches, block_len),
            0 <= i <= batches.len(),
        ensures
            self.render_batches(batches.take(i)).len() == (if i == batches.len() {
                block_len
            } else {
                batches[i].start
            }),
            i == batches.len() ==> self.render_batches(batches).len() == block_len,
        decreases i,
    {
        if i > 0 {
            self.lemma_rendered_len(batches, block_len, i - 1);
            self.lemma_batch_step(batches, i - 1);
            assert(batches[i - 1].start <= batches[i - 1].end);
            if i < batches.len() {
                assert(batches[i - 1].end == batches[i].start);
            }
        } else {
            assert(batches.take(0) =~= Seq::<BatchView>::empty());
        }
        if i == batches.len() {
            assert(batches.take(i) =~= batches);
        }
    }

    /// What the first `i` batches render stays in place when more batches
    /// follow.
    pub proof fn lemma_rendered_prefix(self, batches: Seq<BatchView>, i: int, m: int, j: int)
        requires
            0 <= i <= m <= batches.len(),
            0 <= j < self.render_batches(batches.take(i)).len(),
        ensures
            j < self.render_batches(batches.take(m)).len(),
            self.render_batches(batches.take(m))[j] == self.render_batches(batches.take(i))[j],
        decreases m - i,
    {
        if i < m {
            self.lemma_rendered_prefix(batches, i, m - 1, j);
            self.lemma_batch_step(batches, m - 1);
        }
    }

    /// Sample accuracy: in a block cut exactly, the sample at index `j` of
    /// batch `i`'s range is what the voice that enters batch `i` renders
    /// `j - start` samples into that range. The events of a batch take effect
    /// at the batch's first sample, and at no other.
    pub proof fn lemma_sample_of_batch(
        self,
        batches: Seq<BatchView>,
        block_len: nat,
        i: int,
        j: int,
    )
        requires
            is_partition(batches, block_len),
            0 <= i < batches.len(),
            batches[i].start <= j < batches[i].end,
        ensures
            j < self.render_batches(batches).len(),
            self.render_batches(batches)[j] == self.entering(batches, i).sample_at(
                (j - batches[i].start) as nat,
            ),
    {
        self.lemma_rendered_len(batches, block_len, i);
        self.lemma_batch_step(batches, i);
        let upto = self.render_batches(batches.take(i + 1));
        assert(upto[j] == self.entering(batches, i).render(batches[i].len())[j
            - batches[i].start]);
        self.lemma_rendered_prefix(batches, i + 1, batches.len() as int, j);
        assert(batches.take(batches.len() as int) =~= batches);
    }

    /// A single note-on at offset `k` of a block of `n` samples: the samples
    /// before `k` are what the voice rendered anyway, the samples from `k` on
    /// are what the retuned voice renders with the phase carried over, and
    /// together they are `n` samples, none missing and none twice.
    pub proof fn lemma_single_note_on(self, n: nat, k: nat, key: Key, batches: Seq<BatchView>)
        requires
            self.wf(),
            k <= n,
            batches == (if k == 0 {
                seq![BatchView { start: 0, end: n, events: seq![NoteEvent::NoteOn(key)] }]
            } else {
                seq![
                    BatchView { start: 0, end: k, events: Seq::<NoteEvent>::empty() },
                    BatchView { start: k, end: n, events: seq![NoteEvent::NoteOn(key)] },
                ]
            }),
        ensures
            is_partition(batches, n),
            self.render_batches(batches) == self.render(k) + self.advance(k).note_on(key).render(
                (n - k) as nat,
            ),
            self.render_batches(batches).len() == n,
            forall|j: int| 0 <= j < k ==> self.render_batches(batches)[j] == self.sample_at(j as nat),
            forall|j: int|
                k <= j < n ==> self.render_batches(batches)[j] == self.advance(k).note_on(
                    key,
                ).sample_at((j - k) as nat),
            self.after_batches(batches) == self.advance(k).note_on(key).advance((n - k) as nat),
    {
        let on = seq![NoteEvent::NoteOn(key)];
        let none = Seq::<NoteEvent>::empty();
        let tail = BatchView { start: k, end: n, events: on };
        let after = self.advance(k).note_on(key);
        assert(on.drop_last() =~= none);
        assert(on.last() == NoteEvent::NoteOn(key));
        assert(self.advance(k).after_events(on) == after) by {
            reveal_with_fuel(Voice::after_events, 2);
        }
        if k == 0 {
            vstd::arithmetic::div_mod::lemma_small_mod(self.phase, self.sample_rate);
            assert(self.advance(0) == self);
            assert(batches.len() == 1);
            assert(batches.last() == tail);
            assert(batches.drop_last() =~= Seq::<BatchView>::empty());
            assert(self.after_batches(batches.drop_last()) == self);
            assert(self.render_batches(batches.drop_last()) =~= Seq::<Sample>::empty());
            assert(self.render_batches(batches) =~= self.render(0) + after.render(n));
        } else {
            let head = BatchView { start: 0, end: k, events: none };
            let first = batches.drop_last();
            assert(batches.len() == 2);
            assert(batches.last() == tail);
            assert(first =~= seq![head]);
            assert(first.last() == head);
            assert(first.drop_last() =~= Seq::<BatchView>::empty());
            assert(self.after_batches(first.drop_last()) == self);
            assert(self.render_batches(first.drop_last()) =~= Seq::<Sample>::empty());
            assert(self.after_events(none) == self);
            assert(self.after_batches(first) == self.advance(k));
            assert(self.render_batches(first) =~= self.render(k));
            assert(self.render_batches(batches) =~= self.render(k) + after.render(
                (n - k) as nat,
            ));
            assert(batches[1 - 1].end == batches[1].start);
        }
    }
}

} // verus!
