//! Escaping of leaf values.
//!
//! A leaf value may hold any character. Before it is framed, the three
//! delimiters `:`, `/`, `%` and the sentinel `?` are each replaced by a token
//! that starts and ends with `?`, so that the framed text holds no delimiter of
//! its own.

use vstd::prelude::*;
use crate::text::{chars_of, extend_chars, has_prefix, matches_at, matches_at_exec, string_of};

verus! {

/// The token that stands for `:`.
pub open spec fn tok_colon() -> Seq<char> {
    seq!['?', 'P', 'N', 'c', 'o', 'l', 'o', 'n', '?']
}

/// The token that stands for `/`.
pub open spec fn tok_slash() -> Seq<char> {
    seq!['?', 'P', 'N', 's', 'l', 'a', 's', 'h', '?']
}

/// The token that stands for `%`.
pub open spec fn tok_percent() -> Seq<char> {
    seq!['?', 'P', 'N', 'p', 'e', 'r', 'c', 'e', 'n', 't', '?']
}

/// The token that stands for `?`.
pub open spec fn tok_question() -> Seq<char> {
    seq!['?', 'P', 'N', 'q', 'u', 'e', 's', 't', 'i', 'o', 'n', '?']
}

/// One of the three framing delimiters.
pub open spec fn is_delimiter(c: char) -> bool {
    c == ':' || c == '/' || c == '%'
}

/// A delimiter or the sentinel.
pub open spec fn is_special(c: char) -> bool {
    is_delimiter(c) || c == '?'
}

/// What one raw character becomes when escaped.
pub open spec fn token_of(c: char) -> Seq<char> {
    if c == ':' {
        tok_colon()
    } else if c == '/' {
        tok_slash()
    } else if c == '%' {
        tok_percent()
    } else if c == '?' {
        tok_question()
    } else {
        seq![c]
    }
}

/// The escaped form of a raw value: every character replaced by its token.
pub open spec fn escaped(s: Seq<char>) -> Seq<char>
    decreases s.len(),
{
    if s.len() == 0 {
        Seq::empty()
    } else {
        escaped(s.drop_last()) + token_of(s.last())
    }
}

/// No character of `s` is a framing delimiter.
pub open spec fn delimiter_free(s: Seq<char>) -> bool {
    forall|i: int| 0 <= i < s.len() ==> !is_delimiter(#[trigger] s[i])
}

/// A token is the character itself, or starts with `?PN` and ends with `?` and holds no other `?`; no token holds a delimiter.
pub proof fn lemma_token_shape(c: char)
    ensures
        token_of(c).len() >= 1,
        is_special(c) ==> token_of(c).len() >= 9 && token_of(c)[0] == '?' && token_of(c)[1] == 'P'
            && token_of(c)[2] == 'N' && token_of(c).last() == '?',
        is_special(c) ==> forall|i: int|
            0 < i < token_of(c).len() - 1 ==> (#[trigger] token_of(c)[i]) != '?',
        !is_special(c) ==> token_of(c) == seq![c],
        delimiter_free(token_of(c)),
{
}

/// Escaping goes piece by piece.
pub proof fn lemma_escaped_concat(a: Seq<char>, b: Seq<char>)
    ensures
        escaped(a + b) == escaped(a) + escaped(b),
    decreases b.len(),
{
    if b.len() == 0 {
        assert(a + b =~= a);
        assert(escaped(a) + escaped(b) =~= escaped(a));
    } else {
        assert((a + b).drop_last() =~= a + b.drop_last());
        lemma_escaped_concat(a, b.drop_last());
        assert(escaped(a + b) =~= escaped(a) + escaped(b));
    }
}

/// One character escapes to its token.
pub proof fn lemma_escaped_single(c: char)
    ensures
        escaped(seq![c]) == token_of(c),
{
    let one = seq![c];
    assert(one.drop_last() =~= Seq::<char>::empty());
    assert(escaped(one.drop_last()) =~= Seq::<char>::empty());
    assert(one.last() == c);
    assert(escaped(one) =~= token_of(c));
}

/// The escaped form read from the front.
pub proof fn lemma_escaped_front(s: Seq<char>)
    requires
        s.len() > 0,
    ensures
        escaped(s) == token_of(s[0]) + escaped(s.skip(1)),
{
    assert(s =~= seq![s[0]] + s.skip(1));
    lemma_escaped_concat(seq![s[0]], s.skip(1));
    lemma_escaped_single(s[0]);
}

/// Escaping leaves no delimiter behind.
pub proof fn lemma_escaped_delimiter_free(s: Seq<char>)
    ensures
        delimiter_free(escaped(s)),
    decreases s.len(),
{
    if s.len() > 0 {
        lemma_escaped_delimiter_free(s.drop_last());
        lemma_token_shape(s.last());
    }
}

fn colon_token() -> (v: Vec<char>)
    ensures
        v@ == tok_colon(),
{
    let v = chars_of("?PNcolon?");
    proof {
        reveal_strlit("?PNcolon?");
        assert(v@ =~= tok_colon());
    }
    v
}

fn slash_token() -> (v: Vec<char>)
    ensures
        v@ == tok_slash(),
{
    let v = chars_of("?PNslash?");
    proof {
        reveal_strlit("?PNslash?");
        assert(v@ =~= tok_slash());
    }
    v
}

fn percent_token() -> (v: Vec<char>)
    ensures
        v@ == tok_percent(),
{
    let v = chars_of("?PNpercent?");
    proof {
        reveal_strlit("?PNpercent?");
        assert(v@ =~= tok_percent());
    }
    v
}

fn question_token() -> (v: Vec<char>)
    ensures
        v@ == tok_question(),
{
    let v = chars_of("?PNquestion?");
    proof {
        reveal_strlit("?PNquestion?");
        assert(v@ =~= tok_question());
    }
    v
}

/// Escapes a sequence of raw characters.
pub fn escape_chars(input: &Vec<char>) -> (out: Vec<char>)
    ensures
        out@ == escaped(input@),
        delimiter_free(out@),
{
    let colon = colon_token();
    let slash = slash_token();
    let percent = percent_token();
    let question = question_token();
    let mut out: Vec<char> = Vec::new();
    let mut i: usize = 0;
    while i < input.len()
        invariant
            i <= input.len(),
            colon@ == tok_colon(),
            slash@ == tok_slash(),
            percent@ == tok_percent(),
            question@ == tok_question(),
            out@ == escaped(input@.take(i as int)),
        decreases input.len() - i,
    {
        let c = input[i];
        proof {
            assert(input@.take(i + 1).drop_last() =~= input@.take(i as int));
        }
        if c == ':' {
            extend_chars(&mut out, &colon);
        } else if c == '/' {
            extend_chars(&mut out, &slash);
        } else if c == '%' {
            extend_chars(&mut out, &percent);
        } else if c == '?' {
            extend_chars(&mut out, &question);
        } else {
            out.push(c);
            proof {
                assert(escaped(input@.take(i as int)).push(c) =~= escaped(input@.take(i as int))
                    + seq![c]);
            }
        }
        i += 1;
    }
    proof {
        assert(input@.take(input@.len() as int) =~= input@);
        lemma_escaped_delimiter_free(input@);
    }
    out
}

/// Escapes a raw leaf value so that it can stand inside a frame: each `:`, `/`,
/// `%` and `?` is replaced by its token and every other character is kept.
pub fn escape(input: &str) -> (out: String)
    ensures
        out@ == escaped(input@),
        delimiter_free(out@),
{
    let chars = chars_of(input);
    let escaped_chars = escape_chars(&chars);
    string_of(&escaped_chars)
}


/// The raw value that an escaped text stands for, read from the left: a token
/// at the front stands for its character, and a character that starts no token
/// stands for itself.
pub open spec fn unescaped(s: Seq<char>) -> Seq<char>
    decreases s.len(),
{
    if s.len() == 0 {
        s
    } else if has_prefix(s, tok_colon()) {
        seq![':'] + unescaped(s.skip(9))
    } else if has_prefix(s, tok_slash()) {
        seq!['/'] + unescaped(s.skip(9))
    } else if has_prefix(s, tok_percent()) {
        seq!['%'] + unescaped(s.skip(11))
    } else if has_prefix(s, tok_question()) {
        seq!['?'] + unescaped(s.skip(12))
    } else {
        seq![s[0]] + unescaped(s.skip(1))
    }
}

/// A pattern stands at `i` exactly when what follows `i` starts with it.
pub proof fn lemma_matches_at_front(s: Seq<char>, i: int, pat: Seq<char>)
    requires
        0 <= i <= s.len(),
    ensures
        matches_at(s, i, pat) == has_prefix(s.skip(i), pat),
{
    if i + pat.len() <= s.len() {
        assert(s.skip(i).subrange(0, pat.len() as int) =~= s.subrange(i, i + pat.len()));
    }
}

/// Unescapes a sequence of characters.
pub fn unescape_chars(input: &Vec<char>) -> (out: Vec<char>)
    ensures
        out@ == unescaped(input@),
{
    let colon = colon_token();
    let slash = slash_token();
    let percent = percent_token();
    let question = question_token();
    let mut out: Vec<char> = Vec::new();
    let mut i: usize = 0;
    proof {
        assert(input@.skip(0) =~= input@);
        assert(out@ + unescaped(input@.skip(0)) =~= unescaped(input@));
    }
    while i < input.len()
        invariant
            i <= input.len(),
            colon@ == tok_colon(),
            slash@ == tok_slash(),
            percent@ == tok_percent(),
            question@ == tok_question(),
            out@ + unescaped(input@.skip(i as int)) == unescaped(input@),
        decreases input.len() - i,
    {
        let ghost rest = input@.skip(i as int);
        let ghost before = out@;
        proof {
            lemma_matches_at_front(input@, i as int, tok_colon());
            lemma_matches_at_front(input@, i as int, tok_slash());
            lemma_matches_at_front(input@, i as int, tok_percent());
            lemma_matches_at_front(input@, i as int, tok_question());
        }
        let (c, step): (char, usize) = if matches_at_exec(input, i, &colon) {
            (':', 9)
        } else if matches_at_exec(input, i, &slash) {
            ('/', 9)
        } else if matches_at_exec(input, i, &percent) {
            ('%', 11)
        } else if matches_at_exec(input, i, &question) {
            ('?', 12)
        } else {
            (input[i], 1)
        };
        proof {
            assert(rest[0] == input@[i as int]);
            assert(rest.skip(step as int) =~= input@.skip(i + step));
            assert(unescaped(rest) == seq![c] + unescaped(rest.skip(step as int)));
        }
        out.push(c);
        i += step;
        proof {
            assert(out@ + unescaped(input@.skip(i as int)) =~= before + (seq![c] + unescaped(
                input@.skip(i as int),
            )));
        }
    }
    proof {
        assert(input@.skip(input@.len() as int) =~= Seq::<char>::empty());
        assert(out@ + Seq::<char>::empty() =~= out@);
    }
    out
}

/// Restores the raw leaf value from its escaped form. Text that no escaping
/// produces is accepted too: what does not form a token is kept as it is.
pub fn unescape(input: &str) -> (out: String)
    ensures
        out@ == unescaped(input@),
{
    let chars = chars_of(input);
    let raw = unescape_chars(&chars);
    string_of(&raw)
}

} // verus!
