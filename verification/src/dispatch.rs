//! The steady state of a connection: what each inbound frame does to the
//! sequence tracker and to the read model.

use crate::json::{json_model, json_parsed, parse_value, JsonModel};
use crate::protocol::{opcode_of, read_opcode, unsigned_field, Opcode};
use crate::sequence_tracker::{merged, SequenceTracker};
use crate::snapshot::{load_initial_data, snapshot_of, text_field};
use crate::state::{AppData, AppDataView};
use vstd::prelude::*;

verus! {

/// What an inbound frame turned out to be.
#[derive(Debug, Clone, PartialEq, Eq)]
pub enum Inbound {
    /// Not a JSON text: skipped.
    Malformed,
    /// A frame without an opcode.
    Unmarked,
    /// The first dispatch: the read model was replaced by its content, and
    /// those who watch the model are to be told.
    Snapshot,
    /// A later dispatch, with the event's name; it is not applied to the
    /// read model.
    Event(String),
    /// A frame with any other opcode; nothing is done about it.
    Other(Opcode),
}

/// The mathematical value of an [`Inbound`].
pub enum InboundView {
    Malformed,
    Unmarked,
    Snapshot,
    Event(Seq<char>),
    Other(Opcode),
}

impl View for Inbound {
    type V = InboundView;

    open spec fn view(&self) -> InboundView {
        match self {
            Inbound::Malformed => InboundView::Malformed,
            Inbound::Unmarked => InboundView::Unmarked,
            Inbound::Snapshot => InboundView::Snapshot,
            Inbound::Event(name) => InboundView::Event(name@),
            Inbound::Other(opcode) => InboundView::Other(*opcode),
        }
    }
}

/// Whether a frame is the full-state snapshot: a dispatch with sequence 1.
pub open spec fn is_snapshot(frame: JsonModel) -> bool {
    opcode_of(frame) == Some(Opcode::Dispatch) && frame.unsigned_of("s"@) == Some(1u64)
}

/// What a frame is.
pub open spec fn inbound_of(frame: JsonModel) -> InboundView {
    match opcode_of(frame) {
        None => InboundView::Unmarked,
        Some(Opcode::Dispatch) => if frame.unsigned_of("s"@) == Some(1u64) {
            InboundView::Snapshot
        } else {
            InboundView::Event(frame.text_of("t"@))
        },
        Some(opcode) => InboundView::Other(opcode),
    }
}

/// The tracked value after a frame: raised to the frame's sequence value
/// where it has one that is greater.
pub open spec fn sequence_after(current: u64, frame: JsonModel) -> u64 {
    match frame.unsigned_of("s"@) {
        Some(sequence) => merged(current, sequence),
        None => current,
    }
}

/// The read model after a frame: what a snapshot describes, whatever was
/// there before; unchanged by any other frame.
pub open spec fn data_after(data: AppDataView, frame: JsonModel) -> AppDataView {
    if is_snapshot(frame) {
        snapshot_of(frame)
    } else {
        data
    }
}

/// Applies one parsed inbound frame: advances the tracker by the frame's
/// sequence value, and on the full-state snapshot replaces the read model.
pub fn handle_frame(
    frame: &serde_json::Value,
    sequence_tracker: &mut SequenceTracker,
    app_data: &mut AppData,
) -> (inbound: Inbound)
    ensures
        inbound@ == inbound_of(json_model(*frame)),
        final(sequence_tracker)@ == sequence_after(old(sequence_tracker)@, json_model(*frame)),
        final(app_data)@ == data_after(old(app_data)@, json_model(*frame)),
{
    let sequence = unsigned_field(frame, "s");
    match sequence {
        Some(value) => {
            sequence_tracker.update(value);
        },
        None => {},
    }
    match read_opcode(frame) {
        None => Inbound::Unmarked,
        Some(Opcode::Dispatch) => {
            let first = match sequence {
                Some(value) => value == 1,
                None => false,
            };
            if first {
                load_initial_data(frame, app_data);
                Inbound::Snapshot
            } else {
                Inbound::Event(text_field(frame, "t"))
            }
        },
        Some(opcode) => Inbound::Other(opcode),
    }
}

/// Applies one inbound frame as it came off the wire. A text that is not
/// JSON is skipped: tracker and read model stay as they are.
pub fn handle_incomming_message(
    text: &str,
    sequence_tracker: &mut SequenceTracker,
    app_data: &mut AppData,
) -> (inbound: Inbound)
    ensures
        match json_parsed(text@) {
            Some(frame) => {
                &&& inbound@ == inbound_of(frame)
                &&& final(sequence_tracker)@ == sequence_after(old(sequence_tracker)@, frame)
                &&& final(app_data)@ == data_after(old(app_data)@, frame)
            },
            None => {
                &&& inbound@ == InboundView::Malformed
                &&& final(sequence_tracker)@ == old(sequence_tracker)@
                &&& final(app_data)@ == old(app_data)@
            },
        },
{
    match parse_value(text) {
        Some(frame) => handle_frame(&frame, sequence_tracker, app_data),
        None => Inbound::Malformed,
    }
}

/// The tracked value after a run of frames, each as parsed or `None` where
/// it could not be.
pub open spec fn sequence_after_all(current: u64, frames: Seq<Option<JsonModel>>) -> u64
    decreases frames.len(),
{
    if frames.len() == 0 {
        current
    } else {
        let before = sequence_after_all(current, frames.drop_last());
        match frames.last() {
            Some(frame) => sequence_after(before, frame),
            None => before,
        }
    }
}

/// The read model after a run of frames.
pub open spec fn data_after_all(data: AppDataView, frames: Seq<Option<JsonModel>>) -> AppDataView
    decreases frames.len(),
{
    if frames.len() == 0 {
        data
    } else {
        let before = data_after_all(data, frames.drop_last());
        match frames.last() {
            Some(frame) => data_after(before, frame),
            None => before,
        }
    }
}

/// How many of the frames are snapshots.
pub open spec fn snapshots_among(frames: Seq<Option<JsonModel>>) -> nat
    decreases frames.len(),
{
    if frames.len() == 0 {
        0
    } else {
        let before = snapshots_among(frames.drop_last());
        match frames.last() {
            Some(frame) => if is_snapshot(frame) {
                before + 1
            } else {
                before
            },
            None => before,
        }
    }
}

/// What `serde_json` makes of each of the texts.
pub open spec fn parsed_all(texts: Seq<String>) -> Seq<Option<JsonModel>> {
    Seq::new(texts.len(), |i: int| json_parsed(texts[i]@))
}

/// Applies a run of inbound frames in the order given and counts the
/// snapshots among them: the number of times the read model was replaced.
pub fn handle_incomming_messages(
    texts: &Vec<String>,
    sequence_tracker: &mut SequenceTracker,
    app_data: &mut AppData,
) -> (replaced: usize)
    ensures
        replaced == snapshots_among(parsed_all(texts@)),
        final(sequence_tracker)@ == sequence_after_all(
            old(sequence_tracker)@,
            parsed_all(texts@),
        ),
        final(app_data)@ == data_after_all(old(app_data)@, parsed_all(texts@)),
{
    let ghost frames = parsed_all(texts@);
    let ghost first_sequence = sequence_tracker@;
    let ghost first_data = app_data@;
    let n = texts.len();
    let mut replaced: usize = 0;
    let mut i: usize = 0;
    while i < n
        invariant
            i <= n,
            n == texts@.len(),
            frames == parsed_all(texts@),
            replaced <= i,
            replaced == snapshots_among(frames.subrange(0, i as int)),
            sequence_tracker@ == sequence_after_all(first_sequence, frames.subrange(0, i as int)),
            app_data@ == data_after_all(first_data, frames.subrange(0, i as int)),
        decreases n - i,
    {
        proof {
            let longer = frames.subrange(0, i + 1);
            assert(longer.drop_last() =~= frames.subrange(0, i as int));
            assert(longer.last() == json_parsed(texts@[i as int]@));
        }
        match handle_incomming_message(texts[i].as_str(), sequence_tracker, app_data) {
            Inbound::Snapshot => {
                replaced = replaced + 1;
            },
            _ => {},
        }
        i = i + 1;
    }
    assert(frames.subrange(0, n as int) =~= frames);
    replaced
}

/// A snapshot replaces the read model wholesale: after one snapshot and then
/// another, the model is exactly what the second describes, whatever the
/// first held and whatever was there before.
pub proof fn lemma_snapshot_replaces(data: AppDataView, first: JsonModel, second: JsonModel)
    requires
        is_snapshot(second),
    ensures
        data_after(data_after(data, first), second) == snapshot_of(second),
{
}

/// After any run of frames the read model is what the last snapshot among
/// them describes; frames that are no snapshots change nothing.
pub proof fn lemma_last_snapshot_stands(
    data: AppDataView,
    frames: Seq<Option<JsonModel>>,
    last: int,
)
    requires
        0 <= last < frames.len(),
        frames[last] matches Some(frame) && is_snapshot(frame),
        forall|i: int|
            last < i < frames.len() ==> !(#[trigger] frames[i] matches Some(frame) && is_snapshot(
                frame,
            )),
    ensures
        data_after_all(data, frames) == snapshot_of(frames[last]->Some_0),
    decreases frames.len(),
{
    if last < frames.len() - 1 {
        let earlier = frames.drop_last();
        lemma_last_snapshot_stands(data, earlier, last);
        assert(earlier[last] == frames[last]);
    }
}

/// After any run of frames the tracker holds the greatest of the value it
/// started with and the sequence values of the frames, in whatever order
/// they came: no frame ever lowers it, and it is at least each of them.
pub proof fn lemma_sequence_never_falls(current: u64, frames: Seq<Option<JsonModel>>, i: int)
    requires
        0 <= i < frames.len(),
    ensures
        sequence_after_all(current, frames) >= current,
        match frames[i] {
            Some(frame) => match frame.unsigned_of("s"@) {
                Some(sequence) => sequence_after_all(current, frames) >= sequence,
                None => true,
            },
            None => true,
        },
    decreases frames.len(),
{
    let earlier = frames.drop_last();
    if earlier.len() > 0 {
        lemma_sequence_never_falls(current, earlier, if i < earlier.len() {
            i
        } else {
            0
        });
    } else {
        assert(sequence_after_all(current, earlier) == current);
    }
    if i < earlier.len() {
        assert(earlier[i] == frames[i]);
    }
}

} // verus!
