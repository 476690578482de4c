//! Colons and tokens: where the next candidate shortcode lies in a text.

use vstd::prelude::*;
use vstd::utf8::*;

verus! {

/// The byte that delimits a shortcode.
pub const COLON: u8 = 0x3a;

/// `name` between two colons.
pub open spec fn delimited(name: Seq<u8>) -> Seq<u8> {
    seq![COLON] + name + seq![COLON]
}

/// The offset of the first colon of `text` at or after `from`, if there is one.
pub open spec fn colon_from(text: Seq<u8>, from: int) -> Option<int>
    decreases text.len() - from,
{
    if from < 0 || from >= text.len() {
        None
    } else if text[from] == COLON {
        Some(from)
    } else {
        colon_from(text, from + 1)
    }
}

/// `at` is where the first colon at or after `from` stands: a colon, with no
/// colon between `from` and it.
pub open spec fn is_first_colon(text: Seq<u8>, from: int, at: int) -> bool {
    &&& 0 <= from <= at < text.len()
    &&& text[at] == COLON
    &&& forall|k: int| from <= k < at ==> text[k] != COLON
}

/// No colon stands at or after `from`.
pub open spec fn no_colon_from(text: Seq<u8>, from: int) -> bool {
    forall|k: int| from <= k < text.len() ==> text[k] != COLON
}

/// `colon_from` finds the first colon exactly when there is one.
pub proof fn lemma_colon_from(text: Seq<u8>, from: int)
    requires
        0 <= from,
    ensures
        match colon_from(text, from) {
            Some(at) => is_first_colon(text, from, at),
            None => no_colon_from(text, from),
        },
    decreases text.len() - from,
{
    if from < text.len() && text[from] != COLON {
        lemma_colon_from(text, from + 1);
    }
}

/// Where the first colon stands, there `colon_from` finds it.
pub proof fn lemma_first_colon_found(text: Seq<u8>, from: int, at: int)
    requires
        is_first_colon(text, from, at),
    ensures
        colon_from(text, from) == Some(at),
{
    lemma_colon_from(text, from);
}

/// The first token of `text`: the offsets of the first colon and of the colon
/// that follows it, if `text` holds two colons.
pub open spec fn first_token(text: Seq<u8>) -> Option<(int, int)> {
    match colon_from(text, 0) {
        None => None,
        Some(open) => match colon_from(text, open + 1) {
            None => None,
            Some(close) => Some((open, close)),
        },
    }
}

/// `open` and `close` are the first two colons of `text`.
pub open spec fn is_first_token(text: Seq<u8>, open: int, close: int) -> bool {
    &&& is_first_colon(text, 0, open)
    &&& is_first_colon(text, open + 1, close)
}

/// `text` holds fewer than two colons.
pub open spec fn has_no_token(text: Seq<u8>) -> bool {
    forall|a: int, b: int| 0 <= a < b < text.len() ==> !(text[a] == COLON && text[b] == COLON)
}

/// `first_token` finds the first two colons exactly when there are two.
pub proof fn lemma_first_token(text: Seq<u8>)
    ensures
        match first_token(text) {
            Some((open, close)) => is_first_token(text, open, close),
            None => has_no_token(text),
        },
{
    lemma_colon_from(text, 0);
    if let Some(open) = colon_from(text, 0) {
        lemma_colon_from(text, open + 1);
    }
}

/// Where the first two colons stand, there `first_token` finds them.
pub proof fn lemma_first_token_found(text: Seq<u8>, open: int, close: int)
    requires
        is_first_token(text, open, close),
    ensures
        first_token(text) == Some((open, close)),
{
    lemma_first_colon_found(text, 0, open);
    lemma_first_colon_found(text, open + 1, close);
}

/// Searches `text` from `from` on for a colon.
pub fn find_colon(text: &[u8], from: usize) -> (found: Option<usize>)
    ensures
        match found {
            Some(at) => colon_from(text@, from as int) == Some(at as int) && is_first_colon(
                text@,
                from as int,
                at as int,
            ),
            None => colon_from(text@, from as int) is None && no_colon_from(text@, from as int),
        },
{
    let mut k: usize = from;
    while k < text.len()
        invariant
            from <= k,
            colon_from(text@, from as int) == colon_from(text@, k as int),
        decreases text.len() - k,
    {
        if text[k] == COLON {
            proof {
                lemma_colon_from(text@, from as int);
            }
            return Some(k);
        }
        k += 1;
    }
    proof {
        lemma_colon_from(text@, from as int);
    }
    None
}

/// A colon is a character of its own in UTF-8: the text can be cut before it
/// and after it.
pub proof fn lemma_colon_is_boundary(bytes: Seq<u8>, at: int)
    requires
        valid_utf8(bytes),
        0 <= at < bytes.len(),
        bytes[at] == COLON,
    ensures
        is_char_boundary(bytes, at),
        is_char_boundary(bytes, at + 1),
{
    is_char_boundary_iff_not_is_continuation_byte(bytes, at);
    valid_utf8_split(bytes, at);
    let tail = bytes.subrange(at, bytes.len() as int);
    assert(tail[0] == COLON);
    assert(valid_first_scalar(tail));
    assert(length_of_first_scalar(tail) == 1);
    let rest = pop_first_scalar(tail);
    assert(rest =~= bytes.subrange(at + 1, bytes.len() as int));
    assert(valid_utf8(tail));
    assert(valid_utf8(rest));
    if at + 1 < bytes.len() {
        assert(valid_first_scalar(rest));
        assert(rest[0] == bytes[at + 1]);
        is_char_boundary_iff_not_is_continuation_byte(bytes, at + 1);
    } else {
        is_char_boundary_start_end_of_seq(bytes);
    }
}

/// The offsets of a token, the candidate shortcode between two colons.
#[derive(Clone, Copy, Debug)]
pub struct Token {
    /// Where the opening colon stands.
    pub start: usize,
    /// Where the code starts, behind the opening colon.
    pub code_start: usize,
    /// Where the code ends and the closing colon stands.
    pub code_end: usize,
    /// Where the token ends, behind the closing colon.
    pub end: usize,
}

/// Finds the first token of `text`: its first colon and the next colon
/// behind it.
pub fn next_token(text: &[u8]) -> (found: Option<Token>)
    ensures
        match found {
            Some(t) => {
                &&& first_token(text@) == Some((t.start as int, t.code_end as int))
                &&& is_first_token(text@, t.start as int, t.code_end as int)
                &&& t.code_start == t.start + 1
                &&& t.end == t.code_end + 1
            },
            None => first_token(text@) is None && has_no_token(text@),
        },
{
    proof {
        lemma_first_token(text@);
    }
    let len = text.len();
    let start = match find_colon(text, 0) {
        Some(at) => at,
        None => { return None; },
    };
    let code_start: usize = start + 1;
    let code_end = match find_colon(text, code_start) {
        Some(at) => at,
        None => { return None; },
    };
    Some(Token { start, code_start, code_end, end: code_end + 1 })
}

} // verus!
