//! Reading the output of a helper process: the handshake first, then info
//! frames, each lifted to an outcome.

use vstd::prelude::*;
use crate::frame::{Tree, TypeC};
use crate::number::{parse_u16, parse_unsigned};
use crate::protocol::{extracted, negotiation_of, Protocol};
use crate::text::chars_of;

verus! {

/// What the first leaf of a frame says about the helper's work.
#[derive(Copy, Clone, Debug, PartialEq, Eq, Structural)]
pub enum FrameStatus {
    Progress,
    Done,
    Fail,
    Cancelled,
}

/// What a frame reports.
#[derive(Debug)]
pub enum Outcome {
    /// Work goes on; the operands say how far it has come.
    Progress(Vec<String>),
    /// Work is done; the text is the helper's last word.
    Done(String),
    Fail,
    Cancelled,
}

/// The mathematical value of an `Outcome`.
pub enum OutcomeView {
    Progress(Seq<Seq<char>>),
    Done(Seq<char>),
    Fail,
    Cancelled,
}

/// The views of a vector of strings.
pub open spec fn string_views(v: Seq<String>) -> Seq<Seq<char>> {
    Seq::new(v.len(), |i: int| v[i]@)
}

impl View for Outcome {
    type V = OutcomeView;

    open spec fn view(&self) -> OutcomeView {
        match self {
            Outcome::Progress(ops) => OutcomeView::Progress(string_views(ops@)),
            Outcome::Done(text) => OutcomeView::Done(text@),
            Outcome::Fail => OutcomeView::Fail,
            Outcome::Cancelled => OutcomeView::Cancelled,
        }
    }
}

/// The status that a code stands for: `0` progress, `1` done, `2` failure,
/// `3` cancelled. The code is read as a 16-bit number.
pub open spec fn status_of(code: Seq<char>) -> Option<FrameStatus> {
    match parse_unsigned(code, u16::MAX as nat) {
        Some(v) => if v == 0 {
            Some(FrameStatus::Progress)
        } else if v == 1 {
            Some(FrameStatus::Done)
        } else if v == 2 {
            Some(FrameStatus::Fail)
        } else if v == 3 {
            Some(FrameStatus::Cancelled)
        } else {
            None
        },
        None => None,
    }
}

/// The operands of a progress frame: each leaf as it is, the empty text for
/// an operand that is no leaf.
pub open spec fn operands_of(items: Seq<Tree>) -> Seq<Seq<char>> {
    Seq::new(
        items.len(),
        |j: int|
            match items[j] {
                Tree::Leaf(v) => v,
                Tree::Node(_) => Seq::empty(),
            },
    )
}

/// What a frame reports, or `None` for a tree that is no frame. A frame is a
/// node of a status leaf and a payload: a node of operands after the status of
/// progress, a leaf after every other status. What follows the payload is not
/// read.
pub open spec fn outcome_of(tree: Tree) -> Option<OutcomeView> {
    match tree {
        Tree::Leaf(_) => None,
        Tree::Node(items) => if items.len() < 2 {
            None
        } else {
            match (items[0], items[1]) {
                (Tree::Leaf(code), Tree::Node(ops)) => if status_of(code) == Some(
                    FrameStatus::Progress,
                ) {
                    Some(OutcomeView::Progress(operands_of(ops)))
                } else {
                    None
                },
                (Tree::Leaf(code), Tree::Leaf(text)) => match status_of(code) {
                    Some(FrameStatus::Done) => Some(OutcomeView::Done(text)),
                    Some(FrameStatus::Fail) => Some(OutcomeView::Fail),
                    Some(FrameStatus::Cancelled) => Some(OutcomeView::Cancelled),
                    _ => None,
                },
                _ => None,
            }
        },
    }
}

/// The operand at `j`, or the empty text where there are fewer operands.
pub open spec fn operand(ops: Seq<Seq<char>>, j: int) -> Seq<char> {
    if 0 <= j < ops.len() {
        ops[j]
    } else {
        Seq::empty()
    }
}

/// The operand at `j`, or the empty text where there are fewer operands.
pub fn operand_at(ops: &Vec<String>, j: usize) -> (r: Vec<char>)
    ensures
        r@ == operand(string_views(ops@), j as int),
{
    if j < ops.len() {
        chars_of(ops[j].as_str())
    } else {
        Vec::new()
    }
}

/// Reads a status code.
pub fn read_status(code: &str) -> (r: Option<FrameStatus>)
    ensures
        r == status_of(code@),
{
    match parse_u16(&chars_of(code)) {
        Some(0) => Some(FrameStatus::Progress),
        Some(1) => Some(FrameStatus::Done),
        Some(2) => Some(FrameStatus::Fail),
        Some(3) => Some(FrameStatus::Cancelled),
        _ => None,
    }
}

/// Lifts a tree to the outcome that it reports.
pub fn classify(tree: &TypeC) -> (r: Option<Outcome>)
    ensures
        match outcome_of(tree@) {
            Some(o) => r matches Some(x) && x@ == o,
            None => r is None,
        },
{
    match tree {
        TypeC::Single(_) => None,
        TypeC::Multi(items) => {
            if items.len() < 2 {
                return None;
            }
            proof {
                assert(tree@->Node_0[0] == items@[0]@);
                assert(tree@->Node_0[1] == items@[1]@);
            }
            let status = match &items[0] {
                TypeC::Single(code) => read_status(code.value.as_str()),
                TypeC::Multi(_) => {
                    return None;
                },
            };
            match (&items[1], status) {
                (TypeC::Multi(ops), Some(FrameStatus::Progress)) => {
                    let mut out: Vec<String> = Vec::new();
                    let mut j: usize = 0;
                    while j < ops.len()
                        invariant
                            j <= ops.len(),
                            out@.len() == j,
                            forall|k: int|
                                0 <= k < j ==> (#[trigger] out@[k])@ == operands_of(
                                    items@[1]@->Node_0,
                                )[k],
                            items@[1] == TypeC::Multi(*ops),
                        decreases ops.len() - j,
                    {
                        proof {
                            assert(items@[1]@->Node_0[j as int] == ops@[j as int]@);
                        }
                        match &ops[j] {
                            TypeC::Single(d) => {
                                out.push(d.value.clone());
                            },
                            TypeC::Multi(_) => {
                                out.push(String::new());
                            },
                        }
                        j += 1;
                    }
                    proof {
                        assert(string_views(out@) =~= operands_of(items@[1]@->Node_0));
                    }
                    Some(Outcome::Progress(out))
                },
                (TypeC::Single(text), Some(FrameStatus::Done)) => Some(
                    Outcome::Done(text.value.clone()),
                ),
                (TypeC::Single(_), Some(FrameStatus::Fail)) => Some(Outcome::Fail),
                (TypeC::Single(_), Some(FrameStatus::Cancelled)) => Some(Outcome::Cancelled),
                _ => None,
            }
        },
    }
}

/// What a line of a helper's output means to a session that has or has not
/// seen the helper's handshake yet.
pub open spec fn line_outcome(keys: Set<Seq<char>>, negotiated: bool, line: Seq<char>) -> Option<
    OutcomeView,
> {
    if !negotiated {
        None
    } else {
        match extracted(keys, line) {
            Ok(tree) => outcome_of(tree),
            Err(_) => None,
        }
    }
}

/// Takes one line of a helper's output. Until a handshake has been accepted,
/// each line is tried as a handshake and nothing else. After that, each line is
/// read as an info frame; a line that is no frame under a negotiated key is
/// passed over.
pub fn read_line(proto: &mut Protocol, negotiated: &mut bool, line: &str) -> (r: Option<Outcome>)
    ensures
        final(proto).supported@ == old(proto).supported@,
        match line_outcome(old(proto).keys(), *old(negotiated), line@) {
            Some(o) => r matches Some(x) && x@ == o,
            None => r is None,
        },
        *old(negotiated) ==> *final(negotiated) && *final(proto) == *old(proto),
        !*old(negotiated) ==> match negotiation_of(line@, old(proto).supported@) {
            Ok((key, entry)) => *final(negotiated) && final(proto).table() == old(
                proto,
            ).table().insert(key, entry) && final(proto).keys() == old(proto).keys().insert(key),
            Err(_) => !*final(negotiated) && *final(proto) == *old(proto),
        },
{
    if !*negotiated {
        match proto.negotiate(line) {
            Ok(()) => {
                *negotiated = true;
            },
            Err(_) => {},
        }
        None
    } else {
        match proto.extract_data(line) {
            Ok(tree) => classify(&tree),
            Err(_) => None,
        }
    }
}

} // verus!
