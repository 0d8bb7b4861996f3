//! What holds of handshakes and of the frames that helpers send.

use vstd::prelude::*;
use crate::driver::{operands_of, outcome_of, status_of, FrameStatus, OutcomeView};
use crate::frame::{payload_of, tree_of_payload, ProtocolError, Shape, Tree};
use crate::frame_laws::{fits, framable, lemma_payload_round_trip};
use crate::number::{decimal, digit_of, lemma_decimal_value, lemma_parse_decimal, parse_unsigned};
use crate::p2p::{code_of, ending_shape, operand_numerals, progress_shape};
use crate::protocol::{handshake_line, magic, negotiation_of, NegotiationView};
use crate::text::{
    first_index, has_prefix, join, lemma_first_index_bounds, lemma_split_join, split,
};

verus! {

/// No piece of a split text holds the separator.
pub proof fn lemma_split_pieces_lack(s: Seq<char>, sep: char, k: int)
    requires
        0 <= k < split(s, sep).len(),
    ensures
        !split(s, sep)[k].contains(sep),
    decreases s.len(),
{
    lemma_first_index_bounds(s, sep);
    let i = first_index(s, sep);
    if 0 <= i < s.len() {
        if k == 0 {
            if s.take(i).contains(sep) {
                let j = choose|j: int| 0 <= j < i && s.take(i)[j] == sep;
                assert(s[j] == sep);
            }
        } else {
            lemma_split_pieces_lack(s.skip(i + 1), sep, k - 1);
        }
    }
}

/// A key that a handshake negotiates holds no colon, so that an info line under
/// it is split where the key ends.
pub proof fn lemma_negotiated_key_lacks_colon(line: Seq<char>, supported: Seq<u8>)
    requires
        negotiation_of(line, supported) is Ok,
    ensures
        !negotiation_of(line, supported)->Ok_0.0.contains(':'),
{
    let parts = split(line, ':');
    lemma_split_pieces_lack(line, ':', parts.len() - 1);
}

proof fn lemma_numeral_lacks(n: nat, c: char)
    requires
        digit_of(c) is None,
    ensures
        !decimal(n).contains(c),
{
    lemma_decimal_value(n);
    if decimal(n).contains(c) {
        let j = choose|j: int| 0 <= j < decimal(n).len() && decimal(n)[j] == c;
        assert(digit_of(decimal(n)[j]) is Some);
    }
}

proof fn lemma_concat_lacks(a: Seq<char>, b: Seq<char>, c: char)
    requires
        !a.contains(c),
        !b.contains(c),
    ensures
        !(a + b).contains(c),
{
    if (a + b).contains(c) {
        let j = choose|j: int| 0 <= j < (a + b).len() && (a + b)[j] == c;
        if j < a.len() {
            assert(a[j] == c);
        } else {
            assert(b[j - a.len()] == c);
        }
    }
}

/// The three parts of a handshake that name a tool.
pub open spec fn triple(tool: Seq<char>, build: Seq<char>, proto: u8) -> Seq<char> {
    tool.push('@') + build.push('@') + decimal(proto as nat)
}

proof fn lemma_triple_lacks_colon(tool: Seq<char>, build: Seq<char>, proto: u8)
    requires
        !tool.contains(':'),
        !build.contains(':'),
    ensures
        !triple(tool, build, proto).contains(':'),
{
    lemma_numeral_lacks(proto as nat, ':');
    let at = seq!['@'];
    assert(!at.contains(':'));
    lemma_concat_lacks(tool, at, ':');
    lemma_concat_lacks(tool + at, build, ':');
    lemma_concat_lacks(tool + at + build, at, ':');
    lemma_concat_lacks(tool + at + build + at, decimal(proto as nat), ':');
    assert(triple(tool, build, proto) =~= tool + at + build + at + decimal(proto as nat));
}

/// A handshake is accepted, and records the target under the key, where the
/// target speaks a supported version, no name, build or key holds a colon, and
/// the target's name and build hold no `@`.
pub proof fn lemma_handshake_negotiates(
    sender_tool: Seq<char>,
    sender_build: Seq<char>,
    sender_proto: u8,
    target_tool: Seq<char>,
    target_build: Seq<char>,
    target_proto: u8,
    key: Seq<char>,
    supported: Seq<u8>,
)
    requires
        supported.contains(target_proto),
        !sender_tool.contains(':') && !sender_build.contains(':'),
        !target_tool.contains(':') && !target_build.contains(':'),
        !target_tool.contains('@') && !target_build.contains('@'),
        !key.contains(':'),
    ensures
        negotiation_of(
            handshake_line(
                sender_tool,
                sender_build,
                sender_proto,
                target_tool,
                target_build,
                target_proto,
                key,
            ),
            supported,
        ) == Ok::<(Seq<char>, NegotiationView), ProtocolError>(
            (
                key,
                NegotiationView {
                    tool: target_tool,
                    build: target_build,
                    grammar_version: target_proto,
                },
            ),
        ),
{
    let line = handshake_line(
        sender_tool,
        sender_build,
        sender_proto,
        target_tool,
        target_build,
        target_proto,
        key,
    );
    let sender = triple(sender_tool, sender_build, sender_proto);
    let target = triple(target_tool, target_build, target_proto);
    let parts = seq![magic(), sender, target, key];
    lemma_triple_lacks_colon(sender_tool, sender_build, sender_proto);
    lemma_triple_lacks_colon(target_tool, target_build, target_proto);
    assert(!magic().contains(':'));
    assert(join(parts, ':') =~= line) by {
        let p3 = parts.drop_last();
        let p2 = p3.drop_last();
        let p1 = p2.drop_last();
        assert(p3 =~= seq![magic(), sender, target]);
        assert(p2 =~= seq![magic(), sender]);
        assert(p1 =~= seq![magic()]);
        assert(join(p1, ':') == magic());
        assert(join(p2, ':') == magic().push(':') + sender);
        assert(join(p3, ':') == join(p2, ':').push(':') + target);
        assert(join(parts, ':') == join(p3, ':').push(':') + key);
    }
    lemma_split_join(parts, ':');
    assert(split(line, ':') == parts);
    assert(has_prefix(parts[0], magic())) by {
        assert(magic().subrange(0, magic().len() as int) =~= magic());
    }
    let pieces = seq![target_tool, target_build, decimal(target_proto as nat)];
    lemma_numeral_lacks(target_proto as nat, '@');
    assert(join(pieces, '@') =~= target) by {
        let q2 = pieces.drop_last();
        let q1 = q2.drop_last();
        assert(q2 =~= seq![target_tool, target_build]);
        assert(q1 =~= seq![target_tool]);
        assert(join(q1, '@') == target_tool);
        assert(join(q2, '@') == target_tool.push('@') + target_build);
    }
    lemma_split_join(pieces, '@');
    lemma_parse_decimal(target_proto as nat, u8::MAX as nat);
}

/// The frame by which a helper ends its run reads back as the outcome that it
/// reports, whatever its text.
pub proof fn lemma_ending_frame_reads_back(status: FrameStatus, text: Seq<char>)
    requires
        status != FrameStatus::Progress,
    ensures
        payload_of(ending_shape(), Tree::Node(seq![Tree::Leaf(code_of(status)), Tree::Leaf(text)]))
            is Some,
        outcome_of(
            tree_of_payload(
                payload_of(
                    ending_shape(),
                    Tree::Node(seq![Tree::Leaf(code_of(status)), Tree::Leaf(text)]),
                )->0,
            ),
        ) == Some(
            match status {
                FrameStatus::Done => OutcomeView::Done(text),
                FrameStatus::Fail => OutcomeView::Fail,
                _ => OutcomeView::Cancelled,
            },
        ),
{
    let code = code_of(status);
    let tree = Tree::Node(seq![Tree::Leaf(code), Tree::Leaf(text)]);
    lemma_status_codes(status);
    assert(fits(ending_shape(), tree)) by {
        assert(fits(Shape::Leaf, Tree::Leaf(code)));
        assert(fits(Shape::Leaf, Tree::Leaf(text)));
    }
    assert(framable(tree, 3)) by {
        assert(framable(Tree::Leaf(code), 2));
        assert(framable(Tree::Leaf(text), 2));
    }
    lemma_payload_round_trip(ending_shape(), tree);
}

/// Each status is read back from its code.
pub proof fn lemma_status_codes(status: FrameStatus)
    ensures
        code_of(status).len() == 1,
        status_of(code_of(status)) == Some(status),
{
    reveal_strlit("0");
    reveal_strlit("1");
    reveal_strlit("2");
    reveal_strlit("3");
    let code = code_of(status);
    assert(code.drop_last() =~= Seq::<char>::empty());
    assert(crate::number::digits_value(code.drop_last()) == Some(0nat));
    assert(code.last() == code[0]);
    assert(parse_unsigned(code, u16::MAX as nat) == Some(
        match status {
            FrameStatus::Progress => 0nat,
            FrameStatus::Done => 1nat,
            FrameStatus::Fail => 2nat,
            FrameStatus::Cancelled => 3nat,
        },
    ));
}

/// The frame by which a helper reports progress reads back as progress with the
/// numerals of its operands, where there are two operands or more.
pub proof fn lemma_progress_frame_reads_back(operands: Seq<u64>)
    requires
        operands.len() >= 2,
    ensures
        payload_of(
            progress_shape(operands.len()),
            Tree::Node(seq![Tree::Leaf(code_of(FrameStatus::Progress)), Tree::Node(operand_numerals(operands))]),
        ) is Some,
        outcome_of(
            tree_of_payload(
                payload_of(
                    progress_shape(operands.len()),
                    Tree::Node(
                        seq![
                            Tree::Leaf(code_of(FrameStatus::Progress)),
                            Tree::Node(operand_numerals(operands)),
                        ],
                    ),
                )->0,
            ),
        ) == Some(
            OutcomeView::Progress(Seq::new(operands.len(), |i: int| decimal(operands[i] as nat))),
        ),
{
    let code = code_of(FrameStatus::Progress);
    let leaves = operand_numerals(operands);
    let inner = Tree::Node(leaves);
    let tree = Tree::Node(seq![Tree::Leaf(code), inner]);
    let inner_shape = Shape::Node(Seq::new(operands.len(), |i: int| Shape::Leaf));
    lemma_status_codes(FrameStatus::Progress);
    assert forall|i: int| 0 <= i < leaves.len() implies fits(
        inner_shape->Node_0[i],
        #[trigger] leaves[i],
    ) && framable(leaves[i], 1) by {
    }
    assert(fits(inner_shape, inner));
    assert(framable(inner, 2));
    assert(fits(progress_shape(operands.len()), tree)) by {
        assert(fits(Shape::Leaf, Tree::Leaf(code)));
    }
    assert(framable(tree, 3)) by {
        assert(framable(Tree::Leaf(code), 2));
    }
    lemma_payload_round_trip(progress_shape(operands.len()), tree);
    assert(operands_of(leaves) =~= Seq::new(operands.len(), |i: int| decimal(operands[i] as nat)));
}

} // verus!
