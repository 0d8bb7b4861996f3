//! Unescaping inverts escaping.
//!
//! Every `?` of an escaped text opens or closes a token, and the text is read
//! from the left, so that each token is met at its opening `?` and read whole.

use vstd::prelude::*;
use crate::codec::{
    escaped, is_special, lemma_escaped_front, lemma_token_shape, tok_colon, tok_percent,
    tok_question, tok_slash, token_of, unescaped,
};
use crate::text::has_prefix;

verus! {

/// Which token stands at the front of a text that starts with the token of `c`:
/// the token of `c` where `c` is special, and none where it is not.
pub proof fn lemma_front_token(e: Seq<char>, c: char)
    requires
        has_prefix(e, token_of(c)),
    ensures
        has_prefix(e, tok_colon()) == (c == ':'),
        has_prefix(e, tok_slash()) == (c == '/'),
        has_prefix(e, tok_percent()) == (c == '%'),
        has_prefix(e, tok_question()) == (c == '?'),
        !is_special(c) ==> e.len() > 0 && e[0] == c,
{
    let tok = token_of(c);
    let len = tok.len() as int;
    lemma_token_shape(c);
    assert(e.subrange(0, len)[0] == e[0]);
    assert(tok[0] == e[0]);
    if is_special(c) {
        assert(e.subrange(0, len)[3] == e[3]);
        assert(tok[3] == e[3]);
    }
    if has_prefix(e, tok_colon()) {
        assert(e.subrange(0, 9)[0] == e[0]);
        assert(e.subrange(0, 9)[3] == e[3]);
        assert(tok_colon()[0] == '?' && tok_colon()[3] == 'c');
    }
    if has_prefix(e, tok_slash()) {
        assert(e.subrange(0, 9)[0] == e[0]);
        assert(e.subrange(0, 9)[3] == e[3]);
        assert(tok_slash()[0] == '?' && tok_slash()[3] == 's');
    }
    if has_prefix(e, tok_percent()) {
        assert(e.subrange(0, 11)[0] == e[0]);
        assert(e.subrange(0, 11)[3] == e[3]);
        assert(tok_percent()[0] == '?' && tok_percent()[3] == 'p');
    }
    if has_prefix(e, tok_question()) {
        assert(e.subrange(0, 12)[0] == e[0]);
        assert(e.subrange(0, 12)[3] == e[3]);
        assert(tok_question()[0] == '?' && tok_question()[3] == 'q');
    }
}

/// Unescaping gives back every value that was escaped.
pub proof fn lemma_unescape_inverts_escape(s: Seq<char>)
    ensures
        unescaped(escaped(s)) == s,
    decreases s.len(),
{
    if s.len() == 0 {
        assert(escaped(s) =~= Seq::<char>::empty());
        assert(unescaped(escaped(s)) =~= s);
    } else {
        let c = s[0];
        let rest = s.skip(1);
        let e = escaped(s);
        let tok = token_of(c);
        lemma_escaped_front(s);
        lemma_token_shape(c);
        lemma_unescape_inverts_escape(rest);
        assert(e.subrange(0, tok.len() as int) =~= tok);
        lemma_front_token(e, c);
        assert(e.skip(tok.len() as int) =~= escaped(rest));
        assert(tok.len() == if c == '%' {
            11int
        } else if c == '?' {
            12int
        } else if is_special(c) {
            9int
        } else {
            1int
        });
        assert(unescaped(e) == seq![c] + unescaped(escaped(rest)));
        assert(seq![c] + rest =~= s);
    }
}

} // verus!
