//! The torrent helper's decisions: what it does each time it has looked at the
//! download and at the cancel file, and the frames that it sends.

use vstd::prelude::*;
use crate::driver::FrameStatus;
use crate::frame::{Data, Schema, TypeC};
use crate::number::{decimal, decimal_chars};
use crate::text::{owned, string_of};

verus! {

/// What the helper has seen at one look: whether the cancel file is there, and
/// how many bytes of how many have been downloaded.
#[derive(Copy, Clone, Debug, PartialEq, Eq, Structural)]
pub struct Poll {
    pub cancel_seen: bool,
    pub downloaded: u64,
    pub total: u64,
}

/// What the helper does after a look.
#[derive(Copy, Clone, Debug, PartialEq, Eq, Structural)]
pub enum HelperAction {
    /// The torrent and its files are removed, a frame of status `3` is sent, and
    /// the helper stops.
    Cancel,
    /// A frame of status `1` is sent, the torrent is removed, its files are kept,
    /// and the helper stops.
    Finish,
    /// A frame of status `0` is sent with the whole percentage and the two byte
    /// counts; then the helper waits and looks again.
    Report { percent: u64 },
    /// The helper waits and looks again.
    Wait,
}

/// The download is complete: all bytes are there. A torrent of no bytes is
/// complete once anything has been downloaded.
pub open spec fn complete(poll: Poll) -> bool {
    if poll.total == 0 {
        poll.downloaded > 0
    } else {
        poll.downloaded >= poll.total
    }
}

/// The progress in tenths of a percent, rounded down; 0 for a torrent of no
/// bytes.
pub open spec fn tenths(poll: Poll) -> nat {
    if poll.total == 0 {
        0
    } else {
        (poll.downloaded as nat * 1000) / (poll.total as nat)
    }
}

/// The progress differs from what was last reported by a tenth of a percent or
/// more. Before the first report everything differs.
pub open spec fn worth_reporting(last: Option<u64>, poll: Poll) -> bool {
    match last {
        None => poll.total != 0,
        Some(t) => poll.total != 0 && tenths(poll) != t as nat,
    }
}

/// What the helper does after a look. The cancel file is looked at first, then
/// whether the download is complete, then whether the progress is worth a
/// report.
pub open spec fn action_for(last: Option<u64>, poll: Poll) -> HelperAction {
    if poll.cancel_seen {
        HelperAction::Cancel
    } else if complete(poll) {
        HelperAction::Finish
    } else if worth_reporting(last, poll) {
        HelperAction::Report { percent: (tenths(poll) / 10) as u64 }
    } else {
        HelperAction::Wait
    }
}

/// The progress last reported, after a look.
pub open spec fn reported_after(last: Option<u64>, poll: Poll) -> Option<u64> {
    if action_for(last, poll) is Report {
        Some(tenths(poll) as u64)
    } else {
        last
    }
}

/// Decides what to do after a look, and keeps track of the progress last
/// reported.
pub fn poll_step(last: &mut Option<u64>, poll: Poll) -> (r: HelperAction)
    ensures
        r == action_for(*old(last), poll),
        *final(last) == reported_after(*old(last), poll),
{
    if poll.cancel_seen {
        return HelperAction::Cancel;
    }
    if poll.total == 0 {
        if poll.downloaded > 0 {
            return HelperAction::Finish;
        }
        return HelperAction::Wait;
    }
    if poll.downloaded >= poll.total {
        return HelperAction::Finish;
    }
    let wide: u128 = (poll.downloaded as u128) * 1000;
    let now: u128 = wide / (poll.total as u128);
    proof {
        assert(now < 1000) by (nonlinear_arith)
            requires
                now == wide / (poll.total as u128),
                wide == (poll.downloaded as u128) * 1000,
                poll.downloaded < poll.total,
                poll.total > 0,
        ;
    }
    let now: u64 = now as u64;
    let differs = match *last {
        None => true,
        Some(t) => t != now,
    };
    if differs {
        *last = Some(now);
        HelperAction::Report { percent: now / 10 }
    } else {
        HelperAction::Wait
    }
}

/// The statuses of the frames that the helper sends over a run of looks, from
/// the `i`-th look on. A run ends with the first look that makes the helper
/// stop.
pub open spec fn statuses_sent(polls: Seq<Poll>, i: int, last: Option<u64>) -> Seq<FrameStatus>
    decreases polls.len() - i,
{
    if i < 0 || i >= polls.len() {
        Seq::empty()
    } else {
        match action_for(last, polls[i]) {
            HelperAction::Cancel => seq![FrameStatus::Cancelled],
            HelperAction::Finish => seq![FrameStatus::Done],
            HelperAction::Report { .. } => seq![FrameStatus::Progress] + statuses_sent(
                polls,
                i + 1,
                reported_after(last, polls[i]),
            ),
            HelperAction::Wait => statuses_sent(polls, i + 1, last),
        }
    }
}

/// Every frame but the last of a run reports progress.
pub proof fn lemma_only_the_last_frame_ends(polls: Seq<Poll>, i: int, last: Option<u64>, k: int)
    requires
        0 <= k < statuses_sent(polls, i, last).len() - 1,
    ensures
        statuses_sent(polls, i, last)[k] == FrameStatus::Progress,
    decreases polls.len() - i,
{
    if 0 <= i < polls.len() {
        match action_for(last, polls[i]) {
            HelperAction::Report { .. } => {
                if k > 0 {
                    lemma_only_the_last_frame_ends(
                        polls,
                        i + 1,
                        reported_after(last, polls[i]),
                        k - 1,
                    );
                }
            },
            HelperAction::Wait => {
                lemma_only_the_last_frame_ends(polls, i + 1, last, k);
            },
            _ => {},
        }
    }
}

/// Once the cancel file is seen, before the download is complete at any
/// earlier look, the run ends with one frame of status `3`: the frame is the
/// last that is sent, and no frame of the run says that the download is done.
pub proof fn lemma_cancel_ends_the_run(polls: Seq<Poll>, i: int, last: Option<u64>, seen: int)
    requires
        0 <= i <= seen < polls.len(),
        polls[seen].cancel_seen,
        forall|m: int| i <= m < seen ==> !polls[m].cancel_seen && !complete(#[trigger] polls[m]),
    ensures
        statuses_sent(polls, i, last).len() >= 1,
        statuses_sent(polls, i, last).last() == FrameStatus::Cancelled,
        forall|k: int|
            0 <= k < statuses_sent(polls, i, last).len() ==> statuses_sent(polls, i, last)[k]
                != FrameStatus::Done,
        forall|k: int|
            0 <= k < statuses_sent(polls, i, last).len() - 1 ==> statuses_sent(polls, i, last)[k]
                != FrameStatus::Cancelled,
    decreases seen - i,
{
    if i < seen {
        assert(!polls[i].cancel_seen && !complete(polls[i]));
        let next = reported_after(last, polls[i]);
        lemma_cancel_ends_the_run(polls, i + 1, next, seen);
        assert(next == last || action_for(last, polls[i]) is Report);
    }
}

/// A leaf with the given text.
pub fn leaf(text: &str) -> (r: TypeC)
    ensures
        r@ == crate::frame::Tree::Leaf(text@),
{
    TypeC::Single(Data { value: owned(text) })
}

/// The text of a status code.
pub open spec fn code_of(status: FrameStatus) -> Seq<char> {
    match status {
        FrameStatus::Progress => "0"@,
        FrameStatus::Done => "1"@,
        FrameStatus::Fail => "2"@,
        FrameStatus::Cancelled => "3"@,
    }
}

/// The schema of a frame that ends a run: a status and a text.
pub open spec fn ending_shape() -> crate::frame::Shape {
    crate::frame::Shape::Node(seq![crate::frame::Shape::Leaf, crate::frame::Shape::Leaf])
}

/// The schema of a frame that reports progress with `n` operands.
pub open spec fn progress_shape(n: nat) -> crate::frame::Shape {
    crate::frame::Shape::Node(
        seq![
            crate::frame::Shape::Leaf,
            crate::frame::Shape::Node(Seq::new(n, |i: int| crate::frame::Shape::Leaf)),
        ],
    )
}

/// The frame of a status and a text, by which a run is ended.
pub fn ending_frame(status: FrameStatus, text: &str) -> (r: (Schema, TypeC))
    ensures
        r.0@ == ending_shape(),
        r.1@ == crate::frame::Tree::Node(
            seq![crate::frame::Tree::Leaf(code_of(status)), crate::frame::Tree::Leaf(text@)],
        ),
{
    let code = match status {
        FrameStatus::Progress => leaf("0"),
        FrameStatus::Done => leaf("1"),
        FrameStatus::Fail => leaf("2"),
        FrameStatus::Cancelled => leaf("3"),
    };
    let mut shapes: Vec<Schema> = Vec::new();
    shapes.push(Schema::Leaf);
    shapes.push(Schema::Leaf);
    let mut items: Vec<TypeC> = Vec::new();
    items.push(code);
    items.push(leaf(text));
    let schema = Schema::Multi(shapes);
    let data = TypeC::Multi(items);
    proof {
        assert(Schema::Leaf@ == crate::frame::Shape::Leaf);
        assert(shapes@[0]@ == crate::frame::Shape::Leaf);
        assert(shapes@[1]@ == crate::frame::Shape::Leaf);
        assert(schema@->Node_0 =~= ending_shape()->Node_0);
        assert(data@->Node_0 =~= seq![
            crate::frame::Tree::Leaf(code_of(status)),
            crate::frame::Tree::Leaf(text@),
        ]);
    }
    (schema, data)
}

/// The operands of a progress frame as leaves.
pub open spec fn operand_numerals(operands: Seq<u64>) -> Seq<crate::frame::Tree> {
    Seq::new(operands.len(), |i: int| crate::frame::Tree::Leaf(decimal(operands[i] as nat)))
}

/// The frame that reports progress with the given numbers as operands.
pub fn progress_frame(operands: &Vec<u64>) -> (r: (Schema, TypeC))
    ensures
        r.0@ == progress_shape(operands@.len()),
        r.1@ == crate::frame::Tree::Node(
            seq![
                crate::frame::Tree::Leaf("0"@),
                crate::frame::Tree::Node(operand_numerals(operands@)),
            ],
        ),
{
    let mut inner_shapes: Vec<Schema> = Vec::new();
    let mut inner: Vec<TypeC> = Vec::new();
    let mut i: usize = 0;
    while i < operands.len()
        invariant
            i <= operands.len(),
            inner_shapes@.len() == i,
            inner@.len() == i,
            forall|k: int| 0 <= k < i ==> (#[trigger] inner_shapes@[k])@ == crate::frame::Shape::Leaf,
            forall|k: int|
                0 <= k < i ==> (#[trigger] inner@[k])@ == crate::frame::Tree::Leaf(
                    decimal(operands@[k] as nat),
                ),
        decreases operands.len() - i,
    {
        inner_shapes.push(Schema::Leaf);
        inner.push(TypeC::Single(Data { value: string_of(&decimal_chars(operands[i])) }));
        i += 1;
    }
    let inner_schema = Schema::Multi(inner_shapes);
    let inner_data = TypeC::Multi(inner);
    proof {
        assert(inner_schema@->Node_0 =~= Seq::new(
            operands@.len(),
            |i: int| crate::frame::Shape::Leaf,
        ));
        assert(inner_data@->Node_0 =~= operand_numerals(operands@));
    }
    let mut shapes: Vec<Schema> = Vec::new();
    shapes.push(Schema::Leaf);
    shapes.push(inner_schema);
    let mut items: Vec<TypeC> = Vec::new();
    items.push(leaf("0"));
    items.push(inner_data);
    let schema = Schema::Multi(shapes);
    let data = TypeC::Multi(items);
    proof {
        assert(Schema::Leaf@ == crate::frame::Shape::Leaf);
        assert(shapes@[0]@ == crate::frame::Shape::Leaf);
        assert(shapes@[1]@ == inner_schema@);
        assert(schema@->Node_0 =~= progress_shape(operands@.len())->Node_0);
        assert(data@->Node_0 =~= seq![
            crate::frame::Tree::Leaf("0"@),
            crate::frame::Tree::Node(operand_numerals(operands@)),
        ]);
    }
    (schema, data)
}

} // verus!
