//! The scanner: one pass over a text that replaces each shortcode the
//! directory knows by its glyph.

use crate::database::EmojiDatabase;
use crate::directory::EmojiDirectory;
use crate::token::{first_token, lemma_colon_is_boundary, lemma_first_token, next_token};
use vstd::prelude::*;
use vstd::string::StringSliceAdditionalSpecFns;
use vstd::utf8::*;

verus! {

/// The text with its shortcodes replaced, over UTF-8 bytes.
///
/// The first colon opens a candidate and the next colon closes it. A
/// candidate that the directory holds gives way to its glyph, and the scan
/// goes on behind its closing colon. One that it does not hold stays as it
/// is up to its closing colon, which then opens the next candidate. Text
/// without a complete candidate stays as it is.
pub open spec fn rewritten(text: Seq<u8>, directory: Map<Seq<u8>, Seq<u8>>) -> Seq<u8>
    decreases text.len(),
    via rewritten_decreases
{
    match first_token(text) {
        None => text,
        Some((open, close)) => {
            let code = text.subrange(open, close + 1);
            if directory.contains_key(code) {
                text.subrange(0, open) + directory[code] + rewritten(
                    text.subrange(close + 1, text.len() as int),
                    directory,
                )
            } else {
                text.subrange(0, close) + rewritten(
                    text.subrange(close, text.len() as int),
                    directory,
                )
            }
        },
    }
}

/// The string with its shortcodes replaced: what the rewritten bytes of its
/// encoding decode to.
pub open spec fn rewritten_text(text: Seq<char>, directory: Map<Seq<u8>, Seq<u8>>) -> Seq<char> {
    decode_utf8(rewritten(encode_utf8(text), directory))
}

#[via_fn]
proof fn rewritten_decreases(text: Seq<u8>, directory: Map<Seq<u8>, Seq<u8>>) {
    lemma_first_token(text);
}

/// Calls `String::from_utf8`, which turns bytes into a string exactly when
/// they are valid UTF-8 and then keeps them as they are. The contract takes
/// vstd's `valid_utf8` for what std checks.
#[verifier::external_body]
fn string_from_utf8(bytes: Vec<u8>) -> (text: Option<String>)
    ensures
        text is Some <==> valid_utf8(bytes@),
        text matches Some(t) ==> encode_utf8(t@) == bytes@,
{
    String::from_utf8(bytes).ok()
}

/// Copies `span` to the end of `buffer`.
fn flush(buffer: &mut Vec<u8>, span: &str)
    requires
        valid_utf8(old(buffer)@),
    ensures
        final(buffer)@ == old(buffer)@ + span.spec_bytes(),
        valid_utf8(final(buffer)@),
{
    buffer.extend_from_slice(span.as_bytes());
    proof {
        assert(buffer@ =~= old(buffer)@ + span.spec_bytes());
        encode_utf8_valid_utf8(span@);
        valid_utf8_concat(old(buffer)@, span.spec_bytes());
    }
}

/// Rewrites `text`: each shortcode that `directory` holds gives way to its
/// glyph, and all else stays as it is.
pub fn rewrite<D: EmojiDirectory>(text: &str, directory: &D) -> (out: String)
    ensures
        out@ == rewritten_text(text@, directory.entries()),
        encode_utf8(out@) == rewritten(text.spec_bytes(), directory.entries()),
{
    let mut rest: &str = text;
    let mut buffer: Vec<u8> = Vec::new();
    loop
        invariant
            valid_utf8(buffer@),
            buffer@ + rewritten(rest.spec_bytes(), directory.entries()) == rewritten(
                text.spec_bytes(),
                directory.entries(),
            ),
        ensures
            first_token(rest.spec_bytes()) is None,
        decreases rest.spec_bytes().len(),
    {
        let token = match next_token(rest.as_bytes()) {
            Some(t) => t,
            None => { break ; },
        };
        let ghost bytes = rest.spec_bytes();
        let ghost before = buffer@;
        proof {
            lemma_first_token(bytes);
            encode_utf8_valid_utf8(rest@);
            lemma_colon_is_boundary(bytes, token.start as int);
            lemma_colon_is_boundary(bytes, token.code_end as int);
        }
        let (head, tail) = rest.split_at(token.end);
        proof {
            encode_utf8_valid_utf8(head@);
            assert(head.spec_bytes()[token.start as int] == bytes[token.start as int]);
            lemma_colon_is_boundary(head.spec_bytes(), token.start as int);
        }
        let (lead, code) = head.split_at(token.start);
        assert(code.spec_bytes() =~= bytes.subrange(token.start as int, token.end as int));
        assert(lead.spec_bytes() =~= bytes.subrange(0, token.start as int));
        match directory.lookup_by_shortcode(code) {
            Some(glyph) => {
                flush(&mut buffer, lead);
                flush(&mut buffer, glyph.as_str());
                assert(buffer@ + rewritten(tail.spec_bytes(), directory.entries()) =~= before
                    + rewritten(bytes, directory.entries()));
                rest = tail;
            },
            None => {
                let (kept, next) = rest.split_at(token.code_end);
                flush(&mut buffer, kept);
                assert(buffer@ + rewritten(next.spec_bytes(), directory.entries()) =~= before
                    + rewritten(bytes, directory.entries()));
                rest = next;
            },
        }
    }
    flush(&mut buffer, rest);
    match string_from_utf8(buffer) {
        Some(out) => {
            proof {
                encode_utf8_decode_utf8(out@);
            }
            out
        },
        // The buffer holds valid UTF-8, so this arm is never taken.
        None => String::new(),
    }
}

/// Rewrites `s` with the emoji database: each GitHub shortcode between two
/// colons gives way to its emoji.
pub fn replace(s: &str) -> (out: String)
    ensures
        out@ == rewritten_text(s@, EmojiDatabase.entries()),
        encode_utf8(out@) == rewritten(s.spec_bytes(), EmojiDatabase.entries()),
{
    rewrite(s, &EmojiDatabase)
}

} // verus!
