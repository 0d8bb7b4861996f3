//! Frames: schema-typed trees of leaf strings on one line.
//!
//! The children of a node are joined with the delimiter of the node's depth:
//! `:` at the top, then `/`, then `%`.

use vstd::prelude::*;
use crate::codec::{escape_chars, escaped, unescape_chars, unescaped};
use crate::text::{
    chars_of, contains_char, join, join_chars, split, split_chars, string_of, views,
    };

verus! {

/// A leaf value.
#[derive(Debug)]
pub struct Data {
    pub value: String,
}

impl Clone for Data {
    fn clone(&self) -> (out: Self)
        ensures
            out.value@ == self.value@,
    {
        Data { value: self.value.clone() }
    }
}

/// A tree of leaf values.
#[derive(Debug)]
pub enum TypeC {
    Single(Data),
    Multi(Vec<TypeC>),
}

/// The shape that a tree is expected to have.
#[derive(Debug)]
pub enum Schema {
    Leaf,
    Multi(Vec<Schema>),
}

/// Why a frame or a negotiation line was not accepted.
#[derive(Debug, Clone, Copy, PartialEq, Eq, Structural)]
pub enum ProtocolError {
    InvalidNegotiation,
    NotNegotiationLine,
    UnknownNegKey,
    NegotiationMalformed,
    ParseError,
}

/// The mathematical value of a `TypeC`.
pub enum Tree {
    Leaf(Seq<char>),
    Node(Seq<Tree>),
}

/// The mathematical value of a `Schema`.
pub enum Shape {
    Leaf,
    Node(Seq<Shape>),
}

impl View for TypeC {
    type V = Tree;

    open spec fn view(&self) -> Tree
        decreases self,
    {
        match self {
            TypeC::Single(d) => Tree::Leaf(d.value@),
            TypeC::Multi(v) => Tree::Node(
                Seq::new(
                    v.len() as nat,
                    |i: int|
                        if 0 <= i < v.len() {
                            v[i].view()
                        } else {
                            Tree::Leaf(Seq::empty())
                        },
                ),
            ),
        }
    }
}

impl View for Schema {
    type V = Shape;

    open spec fn view(&self) -> Shape
        decreases self,
    {
        match self {
            Schema::Leaf => Shape::Leaf,
            Schema::Multi(v) => Shape::Node(
                Seq::new(
                    v.len() as nat,
                    |i: int|
                        if 0 <= i < v.len() {
                            v[i].view()
                        } else {
                            Shape::Leaf
                        },
                ),
            ),
        }
    }
}


impl Clone for TypeC {
    fn clone(&self) -> (out: Self)
        ensures
            out@ == self@,
        decreases self,
    {
        match self {
            TypeC::Single(d) => TypeC::Single(d.clone()),
            TypeC::Multi(v) => {
                let mut items: Vec<TypeC> = Vec::new();
                let mut i: usize = 0;
                while i < v.len()
                    invariant
                        i <= v.len(),
                        *self == TypeC::Multi(*v),
                        items@.len() == i,
                        forall|k: int| 0 <= k < i ==> items@[k]@ == v@[k]@,
                    decreases v.len() - i,
                {
                    let child = &v[i];
                    proof {
                        vstd::std_specs::vec::axiom_vec_index_decreases(*v, i as int);
                        assert(decreases_to!(*self => self->Multi_0));
                    }
                    let item = child.clone();
                    items.push(item);
                    i += 1;
                }
                let out = TypeC::Multi(items);
                proof {
                    assert(out@->Node_0 =~= self@->Node_0);
                }
                out
            },
        }
    }
}

impl Clone for Schema {
    fn clone(&self) -> (out: Self)
        ensures
            out@ == self@,
        decreases self,
    {
        match self {
            Schema::Leaf => Schema::Leaf,
            Schema::Multi(v) => {
                let mut items: Vec<Schema> = Vec::new();
                let mut i: usize = 0;
                while i < v.len()
                    invariant
                        i <= v.len(),
                        *self == Schema::Multi(*v),
                        items@.len() == i,
                        forall|k: int| 0 <= k < i ==> items@[k]@ == v@[k]@,
                    decreases v.len() - i,
                {
                    let child = &v[i];
                    proof {
                        vstd::std_specs::vec::axiom_vec_index_decreases(*v, i as int);
                        assert(decreases_to!(*self => self->Multi_0));
                    }
                    let item = child.clone();
                    items.push(item);
                    i += 1;
                }
                let out = Schema::Multi(items);
                proof {
                    assert(out@->Node_0 =~= self@->Node_0);
                }
                out
            },
        }
    }
}


/// The delimiter for the children of a node whose own delimiter is `splitter`.
pub open spec fn next_splitter(splitter: char, lower: Seq<char>) -> char {
    if lower.len() > 0 {
        lower[0]
    } else {
        splitter
    }
}

/// The delimiters below `next_splitter`.
pub open spec fn next_lower(lower: Seq<char>) -> Seq<char> {
    if lower.len() > 0 {
        lower.skip(1)
    } else {
        lower
    }
}

/// The text of each child of a node, or `None` for a child that does not fit
/// its schema.
pub open spec fn serialized_children(
    shapes: Seq<Shape>,
    trees: Seq<Tree>,
    splitter: char,
    lower: Seq<char>,
) -> Seq<Option<Seq<char>>>
    decreases trees, 0int,
{
    Seq::new(
        trees.len(),
        |i: int|
            if 0 <= i < trees.len() {
                serialized(shapes[i], trees[i], splitter, lower)
            } else {
                None
            },
    )
}

/// The text of a tree whose leaves are already escaped, or `None` where the
/// tree does not fit the schema: a leaf for a leaf, a node for a node with as
/// many children, each child fitting its own schema.
pub open spec fn serialized(shape: Shape, tree: Tree, splitter: char, lower: Seq<char>) -> Option<
    Seq<char>,
>
    decreases tree, 1int,
{
    match (shape, tree) {
        (Shape::Leaf, Tree::Leaf(v)) => Some(v),
        (Shape::Node(shapes), Tree::Node(trees)) => {
            if shapes.len() != trees.len() {
                None
            } else {
                let parts = serialized_children(
                    shapes,
                    trees,
                    next_splitter(splitter, lower),
                    next_lower(lower),
                );
                if forall|i: int| 0 <= i < parts.len() ==> (#[trigger] parts[i]) is Some {
                    Some(join(Seq::new(parts.len(), |i: int| parts[i]->0), splitter))
                } else {
                    None
                }
            }
        },
        _ => None,
    }
}

/// The tree read from `input`. The text is split at `splitter`; text with no
/// `splitter` in it is read one level down where it holds the next delimiter,
/// and is a leaf otherwise.
pub open spec fn parsed(input: Seq<char>, splitter: char, lower: Seq<char>) -> Tree
    decreases lower.len(), 1int,
{
    let parts = split(input, splitter);
    if parts.len() == 1 {
        if lower.len() > 0 && input.contains(lower[0]) {
            parsed(input, lower[0], lower.skip(1))
        } else {
            Tree::Leaf(input)
        }
    } else {
        Tree::Node(parsed_children(parts, lower))
    }
}

/// Each piece read one level down, or as a leaf at the lowest level.
pub open spec fn parsed_children(parts: Seq<Seq<char>>, lower: Seq<char>) -> Seq<Tree>
    decreases lower.len(), 0int,
{
    Seq::new(
        parts.len(),
        |i: int|
            if lower.len() > 0 {
                parsed(parts[i], lower[0], lower.skip(1))
            } else {
                Tree::Leaf(parts[i])
            },
    )
}

/// The tree with every leaf escaped.
pub open spec fn escaped_tree(tree: Tree) -> Tree
    decreases tree,
{
    match tree {
        Tree::Leaf(v) => Tree::Leaf(escaped(v)),
        Tree::Node(trees) => Tree::Node(
            Seq::new(
                trees.len(),
                |i: int|
                    if 0 <= i < trees.len() {
                        escaped_tree(trees[i])
                    } else {
                        Tree::Leaf(Seq::empty())
                    },
            ),
        ),
    }
}

/// The tree with every leaf unescaped.
pub open spec fn unescaped_tree(tree: Tree) -> Tree
    decreases tree,
{
    match tree {
        Tree::Leaf(v) => Tree::Leaf(unescaped(v)),
        Tree::Node(trees) => Tree::Node(
            Seq::new(
                trees.len(),
                |i: int|
                    if 0 <= i < trees.len() {
                        unescaped_tree(trees[i])
                    } else {
                        Tree::Leaf(Seq::empty())
                    },
            ),
        ),
    }
}

/// The delimiters below the top level, in order of depth.
pub open spec fn lower_delimiters() -> Seq<char> {
    seq!['/', '%']
}

/// The payload text of a tree: leaves escaped, children joined by depth.
pub open spec fn payload_of(shape: Shape, tree: Tree) -> Option<Seq<char>> {
    serialized(shape, escaped_tree(tree), ':', lower_delimiters())
}

/// The tree that a payload text stands for.
pub open spec fn tree_of_payload(payload: Seq<char>) -> Tree {
    unescaped_tree(parsed(payload, ':', lower_delimiters()))
}


/// A copy of the tree with every leaf escaped.
pub fn escape_typec(tc: &TypeC) -> (out: TypeC)
    ensures
        out@ == escaped_tree(tc@),
    decreases tc,
{
    match tc {
        TypeC::Single(d) => {
            let chars = chars_of(d.value.as_str());
            let value = string_of(&escape_chars(&chars));
            TypeC::Single(Data { value })
        },
        TypeC::Multi(v) => {
            let mut items: Vec<TypeC> = Vec::new();
            let mut i: usize = 0;
            while i < v.len()
                invariant
                    i <= v.len(),
                    *tc == TypeC::Multi(*v),
                    items@.len() == i,
                    forall|k: int| 0 <= k < i ==> items@[k]@ == escaped_tree(v@[k]@),
                decreases v.len() - i,
            {
                let child = &v[i];
                proof {
                    vstd::std_specs::vec::axiom_vec_index_decreases(*v, i as int);
                    assert(decreases_to!(*tc => tc->Multi_0));
                }
                let item = escape_typec(child);
                items.push(item);
                i += 1;
            }
            let out = TypeC::Multi(items);
            proof {
                assert(out@->Node_0 =~= escaped_tree(tc@)->Node_0);
            }
            out
        },
    }
}

/// A copy of the tree with every leaf unescaped.
pub fn unescape_tree(tc: &TypeC) -> (out: TypeC)
    ensures
        out@ == unescaped_tree(tc@),
    decreases tc,
{
    match tc {
        TypeC::Single(d) => {
            let chars = chars_of(d.value.as_str());
            let value = string_of(&unescape_chars(&chars));
            TypeC::Single(Data { value })
        },
        TypeC::Multi(v) => {
            let mut items: Vec<TypeC> = Vec::new();
            let mut i: usize = 0;
            while i < v.len()
                invariant
                    i <= v.len(),
                    *tc == TypeC::Multi(*v),
                    items@.len() == i,
                    forall|k: int| 0 <= k < i ==> items@[k]@ == unescaped_tree(v@[k]@),
                decreases v.len() - i,
            {
                let child = &v[i];
                proof {
                    vstd::std_specs::vec::axiom_vec_index_decreases(*v, i as int);
                    assert(decreases_to!(*tc => tc->Multi_0));
                }
                let item = unescape_tree(child);
                items.push(item);
                i += 1;
            }
            let out = TypeC::Multi(items);
            proof {
                assert(out@->Node_0 =~= unescaped_tree(tc@)->Node_0);
            }
            out
        },
    }
}

/// The tree with every leaf unescaped.
pub fn unescape_typec(tc: TypeC) -> (out: TypeC)
    ensures
        out@ == unescaped_tree(tc@),
{
    unescape_tree(&tc)
}

/// The delimiter and the lower delimiters for the children of a node.
fn step_down(splitter: char, lower: &Vec<char>) -> (r: (char, Vec<char>))
    ensures
        r.0 == next_splitter(splitter, lower@),
        r.1@ == next_lower(lower@),
{
    if lower.len() > 0 {
        let rest = crate::text::slice_chars(lower, 1, lower.len());
        (lower[0], rest)
    } else {
        (splitter, Vec::new())
    }
}

/// Writes one level of a tree: a leaf as its value, a node as its children
/// joined with `splitter`, each child written one level down. A tree that does
/// not fit the schema is refused.
pub fn serialize_level(schema: &Schema, data: &TypeC, splitter: char, lower: &Vec<char>) -> (r:
    Result<Vec<char>, ProtocolError>)
    ensures
        serialized(schema@, data@, splitter, lower@) matches Some(text) ==> (r matches Ok(v) && v@
            == text),
        serialized(schema@, data@, splitter, lower@) is None ==> r == Err::<
            Vec<char>,
            ProtocolError,
        >(ProtocolError::NegotiationMalformed),
    decreases data,
{
    match (schema, data) {
        (Schema::Leaf, TypeC::Single(d)) => Ok(chars_of(d.value.as_str())),
        (Schema::Multi(schemas), TypeC::Multi(values)) => {
            if schemas.len() != values.len() {
                return Err(ProtocolError::NegotiationMalformed);
            }
            let (next, rest) = step_down(splitter, lower);
            proof {
                assert(schema@ is Node && data@ is Node);
                assert(schema@->Node_0.len() == schemas.len());
                assert(data@->Node_0.len() == values.len());
            }
            let ghost expected = serialized_children(
                schema@->Node_0,
                data@->Node_0,
                next,
                rest@,
            );
            let mut parts: Vec<Vec<char>> = Vec::new();
            let mut i: usize = 0;
            while i < values.len()
                invariant
                    i <= values.len(),
                    schemas.len() == values.len(),
                    *data == TypeC::Multi(*values),
                    *schema == Schema::Multi(*schemas),
                    expected == serialized_children(schema@->Node_0, data@->Node_0, next, rest@),
                    schema@ is Node && data@ is Node,
                    schema@->Node_0.len() == data@->Node_0.len() == values.len(),
                    next == next_splitter(splitter, lower@),
                    rest@ == next_lower(lower@),
                    parts@.len() == i,
                    forall|k: int| 0 <= k < i ==> expected[k] == Some(#[trigger] parts@[k]@),
                decreases values.len() - i,
            {
                let child = &values[i];
                proof {
                    vstd::std_specs::vec::axiom_vec_index_decreases(*values, i as int);
                    assert(decreases_to!(*data => data->Multi_0));
                    assert(expected[i as int] == serialized(
                        schemas@[i as int]@,
                        values@[i as int]@,
                        next,
                        rest@,
                    ));
                }
                match serialize_level(&schemas[i], child, next, &rest) {
                    Ok(text) => {
                        parts.push(text);
                    },
                    Err(e) => {
                        proof {
                            assert(expected[i as int] is None);
                            assert(serialized(schema@, data@, splitter, lower@) is None);
                        }
                        return Err(e);
                    },
                }
                i += 1;
            }
            let out = join_chars(&parts, splitter);
            proof {
                assert forall|k: int| 0 <= k < expected.len() implies (#[trigger] expected[k])
                    is Some by {
                    assert(expected[k] == Some(parts@[k]@));
                }
                assert(views(parts@) =~= Seq::new(expected.len(), |k: int| expected[k]->0));
                assert(serialized(schema@, data@, splitter, lower@) == Some(out@));
            }
            Ok(out)
        },
        _ => Err(ProtocolError::NegotiationMalformed),
    }
}

/// Writes a tree as payload text, leaves escaped.
pub fn serialize_v1(schema: &Schema, data: &TypeC) -> (r: Result<String, ProtocolError>)
    ensures
        payload_of(schema@, data@) matches Some(text) ==> (r matches Ok(v) && v@ == text),
        payload_of(schema@, data@) is None ==> r == Err::<String, ProtocolError>(
            ProtocolError::NegotiationMalformed,
        ),
{
    let escaped_data = escape_typec(data);
    let mut lower: Vec<char> = Vec::new();
    lower.push('/');
    lower.push('%');
    proof {
        assert(lower@ =~= lower_delimiters());
    }
    match serialize_level(schema, &escaped_data, ':', &lower) {
        Ok(text) => Ok(string_of(&text)),
        Err(e) => Err(e),
    }
}

/// Reads one level of a tree from `input`.
pub fn parse_level(input: &Vec<char>, splitter: char, lower: &Vec<char>) -> (r: Result<
    TypeC,
    ProtocolError,
>)
    ensures
        r matches Ok(tree) && tree@ == parsed(input@, splitter, lower@),
    decreases lower.len(),
{
    let parts = split_chars(input, splitter);
    if parts.len() == 1 {
        if lower.len() > 0 {
            if contains_char(input, lower[0]) {
                let rest = crate::text::slice_chars(lower, 1, lower.len());
                proof {
                    assert(rest@ =~= lower@.skip(1));
                }
                return parse_level(input, lower[0], &rest);
            }
        }
        return Ok(TypeC::Single(Data { value: string_of(input) }));
    }
    let ghost expected = parsed_children(split(input@, splitter), lower@);
    let mut items: Vec<TypeC> = Vec::new();
    let mut i: usize = 0;
    while i < parts.len()
        invariant
            i <= parts.len(),
            views(parts@) == split(input@, splitter),
            expected == parsed_children(split(input@, splitter), lower@),
            items@.len() == i,
            forall|k: int| 0 <= k < i ==> (#[trigger] items@[k])@ == expected[k],
        decreases parts.len() - i,
    {
        proof {
            assert(views(parts@)[i as int] == parts@[i as int]@);
        }
        if lower.len() > 0 {
            let rest = crate::text::slice_chars(lower, 1, lower.len());
            proof {
                assert(rest@ =~= lower@.skip(1));
            }
            match parse_level(&parts[i], lower[0], &rest) {
                Ok(item) => {
                    items.push(item);
                },
                Err(e) => {
                    return Err(e);
                },
            }
        } else {
            items.push(TypeC::Single(Data { value: string_of(&parts[i]) }));
        }
        i += 1;
    }
    let out = TypeC::Multi(items);
    proof {
        assert(out@->Node_0 =~= expected);
    }
    Ok(out)
}

/// Reads payload text as a tree and unescapes its leaves.
pub fn parse_v1(input: &str) -> (r: Result<TypeC, ProtocolError>)
    ensures
        r matches Ok(tree) && tree@ == tree_of_payload(input@),
{
    let chars = chars_of(input);
    let mut lower: Vec<char> = Vec::new();
    lower.push('/');
    lower.push('%');
    proof {
        assert(lower@ =~= lower_delimiters());
    }
    match parse_level(&chars, ':', &lower) {
        Ok(tree) => Ok(unescape_typec(tree)),
        Err(e) => Err(e),
    }
}

} // verus!
