//! Protocol sessions: the negotiation handshake, the table of negotiated keys,
//! and the framing of info lines under a key.

use vstd::prelude::*;
use vstd::hash_map::StringHashMap;
use crate::frame::{
    parse_v1, payload_of, serialize_v1, tree_of_payload, ProtocolError, Schema, Shape, Tree, TypeC,
};
use crate::number::{decimal, parse_u8, parse_unsigned, push_decimal};
use crate::text::{
    chars_of, extend_chars, find_char, first_index, has_prefix, matches_at_exec, slice_chars,
    split, split_chars, string_of, views,
};

verus! {

/// What a peer announced in its handshake.
#[derive(Debug)]
pub struct Negotiation {
    pub tool: String,
    pub build: String,
    pub grammar_version: u8,
}

/// The mathematical value of a `Negotiation`.
pub struct NegotiationView {
    pub tool: Seq<char>,
    pub build: Seq<char>,
    pub grammar_version: u8,
}

impl View for Negotiation {
    type V = NegotiationView;

    open spec fn view(&self) -> NegotiationView {
        NegotiationView {
            tool: self.tool@,
            build: self.build@,
            grammar_version: self.grammar_version,
        }
    }
}

impl Clone for Negotiation {
    fn clone(&self) -> (out: Self)
        ensures
            out@ == self@,
    {
        Negotiation {
            tool: self.tool.clone(),
            build: self.build.clone(),
            grammar_version: self.grammar_version,
        }
    }
}

/// One side of a handshake: a tool, its build and the grammar version it speaks.
#[derive(Clone, Copy)]
pub struct ToolInfo<'a> {
    pub tool: &'a str,
    pub build: &'a str,
    pub proto: u8,
}

/// A protocol session.
pub struct Protocol {
    /// The grammar versions that this side accepts.
    pub supported: Vec<u8>,
    /// What was negotiated under each key.
    pub negotiated: StringHashMap<Negotiation>,
}

/// The word that every handshake line starts with.
pub open spec fn magic() -> Seq<char> {
    seq!['P', 'N', 'p', 'r', 'o', 't', 'o', 'c', 'o', 'l']
}

/// What a handshake line negotiates: the key and the entry stored under it, or
/// the reason why the line is refused.
pub open spec fn negotiation_of(line: Seq<char>, supported: Seq<u8>) -> Result<
    (Seq<char>, NegotiationView),
    ProtocolError,
> {
    let parts = split(line, ':');
    if !has_prefix(parts[0], magic()) {
        Err(ProtocolError::NotNegotiationLine)
    } else if parts.len() < 3 {
        Err(ProtocolError::InvalidNegotiation)
    } else {
        let tool_parts = split(parts[2], '@');
        if tool_parts.len() != 3 {
            Err(ProtocolError::InvalidNegotiation)
        } else {
            match parse_unsigned(tool_parts[2], u8::MAX as nat) {
                None => Err(ProtocolError::InvalidNegotiation),
                Some(version) => if !supported.contains(version as u8) {
                    Err(ProtocolError::InvalidNegotiation)
                } else {
                    Ok(
                        (
                            parts.last(),
                            NegotiationView {
                                tool: tool_parts[0],
                                build: tool_parts[1],
                                grammar_version: version as u8,
                            },
                        ),
                    )
                },
            }
        }
    }
}

/// The tree that an info line carries, given the set of negotiated keys.
pub open spec fn extracted(keys: Set<Seq<char>>, line: Seq<char>) -> Result<Tree, ProtocolError> {
    let i = first_index(line, ':');
    if i >= line.len() {
        Err(ProtocolError::ParseError)
    } else if !keys.contains(line.take(i)) {
        Err(ProtocolError::UnknownNegKey)
    } else {
        Ok(tree_of_payload(line.skip(i + 1)))
    }
}

/// The info line for a tree under a key, given the set of negotiated keys.
pub open spec fn info_string(keys: Set<Seq<char>>, key: Seq<char>, shape: Shape, tree: Tree) -> Result<
    Seq<char>,
    ProtocolError,
> {
    if !keys.contains(key) {
        Err(ProtocolError::UnknownNegKey)
    } else {
        match payload_of(shape, tree) {
            None => Err(ProtocolError::NegotiationMalformed),
            Some(payload) => Ok(key.push(':') + payload),
        }
    }
}

/// The handshake line by which `sender` asks `target` to speak under `key`.
pub open spec fn handshake_line(
    sender_tool: Seq<char>,
    sender_build: Seq<char>,
    sender_proto: u8,
    target_tool: Seq<char>,
    target_build: Seq<char>,
    target_proto: u8,
    key: Seq<char>,
) -> Seq<char> {
    magic().push(':') + sender_tool.push('@') + sender_build.push('@') + decimal(
        sender_proto as nat,
    ).push(':') + target_tool.push('@') + target_build.push('@') + decimal(
        target_proto as nat,
    ).push(':') + key
}

fn magic_chars() -> (v: Vec<char>)
    ensures
        v@ == magic(),
{
    let v = chars_of("PNprotocol");
    proof {
        reveal_strlit("PNprotocol");
        assert(v@ =~= magic());
    }
    v
}

fn contains_version(supported: &Vec<u8>, version: u8) -> (b: bool)
    ensures
        b == supported@.contains(version),
{
    let mut i: usize = 0;
    while i < supported.len()
        invariant
            i <= supported.len(),
            forall|j: int| 0 <= j < i ==> supported@[j] != version,
        decreases supported.len() - i,
    {
        if supported[i] == version {
            return true;
        }
        i += 1;
    }
    false
}

impl Protocol {
    /// The negotiated entries as mathematical values.
    pub open spec fn table(&self) -> Map<Seq<char>, NegotiationView> {
        self.negotiated@.map_values(|n: Negotiation| n@)
    }

    /// The negotiated keys.
    pub open spec fn keys(&self) -> Set<Seq<char>> {
        self.negotiated@.dom()
    }

    /// A session that accepts the given grammar versions and has negotiated
    /// nothing yet.
    pub fn new(supported: Vec<u8>) -> (out: Self)
        ensures
            out.supported@ == supported@,
            out.table() == Map::<Seq<char>, NegotiationView>::empty(),
            out.keys() == Set::<Seq<char>>::empty(),
    {
        let out = Protocol { supported, negotiated: StringHashMap::new() };
        proof {
            assert(out.table() =~= Map::<Seq<char>, NegotiationView>::empty());
            assert(out.keys() =~= Set::<Seq<char>>::empty());
        }
        out
    }

    /// Reads a handshake line and records what it negotiates. The line must
    /// start with `PNprotocol`, have three or more parts between colons, the
    /// third of them `tool@build@version` with a supported version; the last
    /// part is the key. A refused line changes nothing.
    pub fn negotiate(&mut self, neg_str: &str) -> (r: Result<(), ProtocolError>)
        ensures
            final(self).supported@ == old(self).supported@,
            match negotiation_of(neg_str@, old(self).supported@) {
                Ok((key, entry)) => r is Ok && final(self).table() == old(self).table().insert(
                    key,
                    entry,
                ) && final(self).keys() == old(self).keys().insert(key),
                Err(e) => r == Err::<(), ProtocolError>(e) && *final(self) == *old(self),
            },
    {
        let line = chars_of(neg_str);
        let parts = split_chars(&line, ':');
        let magic = magic_chars();
        proof {
            assert(views(parts@)[0] == parts@[0]@);
        }
        if !matches_at_exec(&parts[0], 0, &magic) {
            return Err(ProtocolError::NotNegotiationLine);
        }
        if parts.len() < 3 {
            return Err(ProtocolError::InvalidNegotiation);
        }
        proof {
            assert(views(parts@)[2] == parts@[2]@);
            assert(views(parts@).last() == parts@[parts@.len() - 1]@);
        }
        let tool_parts = split_chars(&parts[2], '@');
        if tool_parts.len() != 3 {
            return Err(ProtocolError::InvalidNegotiation);
        }
        proof {
            assert(views(tool_parts@)[0] == tool_parts@[0]@);
            assert(views(tool_parts@)[1] == tool_parts@[1]@);
            assert(views(tool_parts@)[2] == tool_parts@[2]@);
        }
        let grammar_version = match parse_u8(&tool_parts[2]) {
            Some(v) => v,
            None => {
                return Err(ProtocolError::InvalidNegotiation);
            },
        };
        if !contains_version(&self.supported, grammar_version) {
            return Err(ProtocolError::InvalidNegotiation);
        }
        let key = string_of(&parts[parts.len() - 1]);
        let entry = Negotiation {
            tool: string_of(&tool_parts[0]),
            build: string_of(&tool_parts[1]),
            grammar_version,
        };
        self.negotiated.insert(key, entry);
        proof {
            assert(final(self).table() =~= old(self).table().insert(key@, entry@));
            assert(final(self).keys() =~= old(self).keys().insert(key@));
        }
        Ok(())
    }

    /// Reads an info line: the text before the first colon is the key, the rest
    /// is the payload. A line without a colon is refused, and so is one whose key
    /// was not negotiated. Every grammar version reads the payload alike.
    pub fn extract_data(&self, data_str: &str) -> (r: Result<TypeC, ProtocolError>)
        ensures
            match extracted(self.keys(), data_str@) {
                Ok(tree) => r matches Ok(t) && t@ == tree,
                Err(e) => r matches Err(x) && x == e,
            },
    {
        let line = chars_of(data_str);
        let i = find_char(&line, ':');
        if i >= line.len() {
            return Err(ProtocolError::ParseError);
        }
        let key = string_of(&slice_chars(&line, 0, i));
        let payload = string_of(&slice_chars(&line, i + 1, line.len()));
        proof {
            assert(line@.take(i as int) =~= line@.subrange(0, i as int));
            assert(line@.skip(i + 1) =~= line@.subrange(i + 1, line@.len() as int));
        }
        match self.negotiated.get(key.as_str()) {
            None => Err(ProtocolError::UnknownNegKey),
            Some(negotiation) => parse_payload(negotiation.grammar_version, payload.as_str()),
        }
    }

    /// Writes an info line for `data` under `negkey`: the key, a colon and the
    /// payload. A key that was not negotiated is refused, and so is data that
    /// does not fit the schema.
    pub fn build_info_string(&self, negkey: &str, schema: &Schema, data: &TypeC) -> (r: Result<
        String,
        ProtocolError,
    >)
        ensures
            match info_string(self.keys(), negkey@, schema@, data@) {
                Ok(text) => r matches Ok(s) && s@ == text,
                Err(e) => r matches Err(x) && x == e,
            },
    {
        let grammar_version = match self.negotiated.get(negkey) {
            None => {
                return Err(ProtocolError::UnknownNegKey);
            },
            Some(negotiation) => negotiation.grammar_version,
        };
        let payload = match write_payload(grammar_version, schema, data) {
            Ok(p) => p,
            Err(e) => {
                return Err(e);
            },
        };
        let mut out = chars_of(negkey);
        out.push(':');
        extend_chars(&mut out, &chars_of(payload.as_str()));
        Ok(string_of(&out))
    }

    /// Negotiates with itself the handshake by which `sender` asks `target` to
    /// speak under `key`, and returns the handshake line for the caller to send.
    /// Nothing is recorded where the line is refused.
    pub fn request(&mut self, sender: ToolInfo, target: ToolInfo, key: &str) -> (r: Result<
        String,
        ProtocolError,
    >)
        ensures
            final(self).supported@ == old(self).supported@,
            ({
                let line = handshake_line(
                    sender.tool@,
                    sender.build@,
                    sender.proto,
                    target.tool@,
                    target.build@,
                    target.proto,
                    key@,
                );
                match negotiation_of(line, old(self).supported@) {
                    Ok((k, entry)) => r matches Ok(s) && s@ == line && final(self).table() == old(
                        self,
                    ).table().insert(k, entry) && final(self).keys() == old(self).keys().insert(k),
                    Err(e) => r matches Err(x) && x == e && *final(self) == *old(self),
                }
            }),
    {
        let mut line = magic_chars();
        line.push(':');
        extend_chars(&mut line, &chars_of(sender.tool));
        line.push('@');
        extend_chars(&mut line, &chars_of(sender.build));
        line.push('@');
        push_decimal(&mut line, sender.proto as u64);
        line.push(':');
        extend_chars(&mut line, &chars_of(target.tool));
        line.push('@');
        extend_chars(&mut line, &chars_of(target.build));
        line.push('@');
        push_decimal(&mut line, target.proto as u64);
        line.push(':');
        extend_chars(&mut line, &chars_of(key));
        let text = string_of(&line);
        proof {
            assert(text@ =~= handshake_line(
                sender.tool@,
                sender.build@,
                sender.proto,
                target.tool@,
                target.build@,
                target.proto,
                key@,
            ));
        }
        match self.negotiate(text.as_str()) {
            Ok(()) => Ok(text),
            Err(e) => Err(e),
        }
    }
}

/// Reads a payload by the grammar of the given version. There is one grammar so
/// far, and every version reads by it.
pub fn parse_payload(grammar_version: u8, payload: &str) -> (r: Result<TypeC, ProtocolError>)
    ensures
        r matches Ok(tree) && tree@ == tree_of_payload(payload@),
{
    match grammar_version {
        _ => parse_v1(payload),
    }
}

/// Writes a payload by the grammar of the given version. There is one grammar
/// so far, and every version writes by it.
pub fn write_payload(grammar_version: u8, schema: &Schema, data: &TypeC) -> (r: Result<
    String,
    ProtocolError,
>)
    ensures
        payload_of(schema@, data@) matches Some(text) ==> (r matches Ok(v) && v@ == text),
        payload_of(schema@, data@) is None ==> r == Err::<String, ProtocolError>(
            ProtocolError::NegotiationMalformed,
        ),
{
    match grammar_version {
        _ => serialize_v1(schema, data),
    }
}

} // verus!
