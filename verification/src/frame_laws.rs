//! Reading a frame gives back the tree that was written.

use vstd::prelude::*;
use crate::codec::{delimiter_free, escaped, is_delimiter, lemma_escaped_delimiter_free};
use crate::frame::{
    escaped_tree, lower_delimiters, next_lower, next_splitter, parsed, parsed_children,
    payload_of, serialized, serialized_children, tree_of_payload, unescaped_tree, Shape, Tree,
};
use crate::protocol::{extracted, info_string};
use crate::roundtrip::lemma_unescape_inverts_escape;
use crate::text::{
    join, lemma_first_index_is, lemma_join_lacks,
    lemma_split_join, lemma_split_nonempty, };

verus! {

/// The tree has the shape that the schema asks for: a leaf for a leaf, a node
/// for a node with as many children, each child fitting its own schema.
pub open spec fn fits(shape: Shape, tree: Tree) -> bool
    decreases tree,
{
    match (shape, tree) {
        (Shape::Leaf, Tree::Leaf(_)) => true,
        (Shape::Node(shapes), Tree::Node(trees)) => shapes.len() == trees.len() && forall|i: int|
            0 <= i < trees.len() ==> fits(shapes[i], #[trigger] trees[i]),
        _ => false,
    }
}

/// The tree can be framed with `levels` delimiters and read back: nodes nest
/// at most `levels` deep, and every node has two or more children.
pub open spec fn framable(tree: Tree, levels: nat) -> bool
    decreases tree,
{
    match tree {
        Tree::Leaf(_) => true,
        Tree::Node(trees) => levels >= 1 && trees.len() >= 2 && forall|i: int|
            0 <= i < trees.len() ==> framable(#[trigger] trees[i], (levels - 1) as nat),
    }
}

/// `splitter` and `lower` are delimiters, all different.
pub open spec fn valid_levels(splitter: char, lower: Seq<char>) -> bool {
    &&& is_delimiter(splitter)
    &&& forall|i: int| 0 <= i < lower.len() ==> is_delimiter(#[trigger] lower[i]) && lower[i] != splitter
    &&& forall|i: int, j: int| 0 <= i < j < lower.len() ==> lower[i] != lower[j]
}

/// The text holds no delimiter but those of its own levels.
pub open spec fn lacks_outer(text: Seq<char>, splitter: char, lower: Seq<char>, levels: nat) -> bool {
    forall|c: char|
        is_delimiter(c) && (levels == 0 || (c != splitter && !lower.contains(c)))
            ==> !#[trigger] text.contains(c)
}

proof fn lemma_delimiter_free_lacks(text: Seq<char>, c: char)
    requires
        delimiter_free(text),
        is_delimiter(c),
    ensures
        !text.contains(c),
{
    if text.contains(c) {
        let j = choose|j: int| 0 <= j < text.len() && text[j] == c;
        assert(!is_delimiter(text[j]));
    }
}

/// Writing an escaped tree and reading the text gives the escaped tree.
proof fn lemma_parse_serialized(
    shape: Shape,
    tree: Tree,
    splitter: char,
    lower: Seq<char>,
    levels: nat,
)
    requires
        fits(shape, tree),
        framable(tree, levels),
        levels <= lower.len() + 1,
        valid_levels(splitter, lower),
    ensures
        serialized(shape, escaped_tree(tree), splitter, lower) is Some,
        parsed(serialized(shape, escaped_tree(tree), splitter, lower)->0, splitter, lower)
            == escaped_tree(tree),
        lacks_outer(
            serialized(shape, escaped_tree(tree), splitter, lower)->0,
            splitter,
            lower,
            levels,
        ),
    decreases tree,
{
    match tree {
        Tree::Leaf(v) => {
            let text = escaped(v);
            lemma_escaped_delimiter_free(v);
            assert forall|c: char| is_delimiter(c) implies !#[trigger] text.contains(c) by {
                lemma_delimiter_free_lacks(text, c);
            }
            lemma_split_nonempty(text, splitter);
            if lower.len() > 0 {
                assert(is_delimiter(lower[0]));
            }
        },
        Tree::Node(trees) => {
            let shapes = shape->Node_0;
            let etrees = escaped_tree(tree)->Node_0;
            let next = next_splitter(splitter, lower);
            let rest = next_lower(lower);
            let child_levels = (levels - 1) as nat;
            let parts = serialized_children(shapes, etrees, next, rest);
            assert(valid_levels(next, rest)) by {
                if lower.len() > 0 {
                    assert forall|i: int| 0 <= i < rest.len() implies is_delimiter(
                        #[trigger] rest[i],
                    ) && rest[i] != next by {
                        assert(rest[i] == lower[i + 1]);
                    }
                    assert forall|i: int, j: int| 0 <= i < j < rest.len() implies rest[i]
                        != rest[j] by {
                        assert(rest[i] == lower[i + 1]);
                        assert(rest[j] == lower[j + 1]);
                    }
                }
            }
            assert forall|i: int| 0 <= i < trees.len() implies (#[trigger] parts[i]) is Some
                && parsed(parts[i]->0, next, rest) == etrees[i] && lacks_outer(
                parts[i]->0,
                next,
                rest,
                child_levels,
            ) && !(parts[i]->0).contains(splitter) by {
                assert(fits(shapes[i], trees[i]));
                assert(framable(trees[i], child_levels));
                lemma_parse_serialized(shapes[i], trees[i], next, rest, child_levels);
                assert(etrees[i] == escaped_tree(trees[i]));
                if child_levels > 0 {
                    assert(lower.len() > 0);
                    if rest.contains(splitter) {
                        let j = choose|j: int| 0 <= j < rest.len() && rest[j] == splitter;
                        assert(rest[j] == lower[j + 1]);
                    }
                }
            }
            let texts = Seq::new(parts.len(), |i: int| parts[i]->0);
            let text = join(texts, splitter);
            assert(serialized(shape, escaped_tree(tree), splitter, lower) == Some(text));
            assert forall|i: int| 0 <= i < texts.len() implies !(#[trigger] texts[i]).contains(
                splitter,
            ) by {
                assert(texts[i] == parts[i]->0);
            }
            lemma_split_join(texts, splitter);
            assert(parsed_children(texts, lower) =~= etrees) by {
                assert forall|i: int| 0 <= i < texts.len() implies parsed_children(texts, lower)[i]
                    == etrees[i] by {
                    assert(texts[i] == parts[i]->0);
                    if lower.len() == 0 {
                        assert(child_levels == 0);
                        assert(framable(trees[i], 0));
                        assert(trees[i] is Leaf);
                        assert(etrees[i] == escaped_tree(trees[i]));
                        assert(fits(shapes[i], trees[i]));
                    }
                }
            }
            assert(parsed(text, splitter, lower) == escaped_tree(tree));
            assert forall|c: char|
                is_delimiter(c) && (levels == 0 || (c != splitter && !lower.contains(c)))
                    implies !#[trigger] text.contains(c) by {
                assert forall|i: int| 0 <= i < texts.len() implies !(#[trigger] texts[i]).contains(
                    c,
                ) by {
                    assert(texts[i] == parts[i]->0);
                    assert(lacks_outer(parts[i]->0, next, rest, child_levels));
                    if child_levels > 0 {
                        assert(c != next) by {
                            assert(lower[0] == next);
                            assert(lower.contains(lower[0]));
                        }
                        if rest.contains(c) {
                            let j = choose|j: int| 0 <= j < rest.len() && rest[j] == c;
                            assert(lower[j + 1] == c);
                            assert(lower.contains(c));
                        }
                    }
                }
                lemma_join_lacks(texts, splitter, c);
            }
        },
    }
}

/// Unescaping the leaves of an escaped tree gives the tree.
proof fn lemma_unescape_tree(tree: Tree, levels: nat)
    requires
        framable(tree, levels),
    ensures
        unescaped_tree(escaped_tree(tree)) == tree,
    decreases tree,
{
    match tree {
        Tree::Leaf(v) => {
            lemma_unescape_inverts_escape(v);
        },
        Tree::Node(trees) => {
            let etrees = escaped_tree(tree)->Node_0;
            let back = unescaped_tree(escaped_tree(tree))->Node_0;
            assert forall|i: int| 0 <= i < trees.len() implies back[i] == trees[i] by {
                assert(framable(trees[i], (levels - 1) as nat));
                lemma_unescape_tree(trees[i], (levels - 1) as nat);
                assert(etrees[i] == escaped_tree(trees[i]));
            }
            assert(back =~= trees);
        },
    }
}

/// A payload written for a tree that fits its schema reads back as that tree,
/// provided the tree nests at most three deep and every node has two or more
/// children.
pub proof fn lemma_payload_round_trip(shape: Shape, tree: Tree)
    requires
        fits(shape, tree),
        framable(tree, 3),
    ensures
        payload_of(shape, tree) is Some,
        tree_of_payload(payload_of(shape, tree)->0) == tree,
{
    let lower = lower_delimiters();
    assert(valid_levels(':', lower));
    lemma_parse_serialized(shape, tree, ':', lower, 3);
    lemma_unescape_tree(tree, 3);
}

/// An info line built under a negotiated key reads back as the tree it was
/// built from, provided the key holds no colon and the tree can be framed.
pub proof fn lemma_info_line_round_trip(
    keys: Set<Seq<char>>,
    key: Seq<char>,
    shape: Shape,
    tree: Tree,
)
    requires
        keys.contains(key),
        !key.contains(':'),
        fits(shape, tree),
        framable(tree, 3),
    ensures
        info_string(keys, key, shape, tree) is Ok,
        extracted(keys, info_string(keys, key, shape, tree)->Ok_0) == Ok::<Tree, crate::frame::ProtocolError>(tree),
{
    lemma_payload_round_trip(shape, tree);
    let payload = payload_of(shape, tree)->0;
    let line = key.push(':') + payload;
    assert(info_string(keys, key, shape, tree) == Ok::<Seq<char>, crate::frame::ProtocolError>(line));
    assert forall|j: int| 0 <= j < key.len() implies line[j] != ':' by {
        assert(line[j] == key[j]);
        if key[j] == ':' {
            assert(key.contains(':'));
        }
    }
    assert(line[key.len() as int] == ':');
    lemma_first_index_is(line, ':', key.len() as int);
    assert(line.take(key.len() as int) =~= key);
    assert(line.skip(key.len() as int + 1) =~= payload);
}

} // verus!
