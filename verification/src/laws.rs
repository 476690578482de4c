//! What holds of every rewrite.

use crate::directory::glyphs_are_utf8;
use crate::scan::{rewritten, rewritten_text};
use crate::token::{
    delimited, first_token, has_no_token, is_first_token, lemma_colon_is_boundary,
    lemma_first_token, lemma_first_token_found, no_colon_from, COLON,
};
use vstd::prelude::*;
use vstd::utf8::*;

verus! {

/// A text with fewer than two colons holds no token and is left as it is,
/// whatever the directory holds.
pub proof fn lemma_without_token_unchanged(text: Seq<u8>, directory: Map<Seq<u8>, Seq<u8>>)
    requires
        has_no_token(text),
    ensures
        rewritten(text, directory) == text,
{
    lemma_first_token(text);
}

/// Passthrough: a text without a colon is left as it is, whatever the
/// directory holds.
pub proof fn lemma_passthrough(text: Seq<u8>, directory: Map<Seq<u8>, Seq<u8>>)
    requires
        no_colon_from(text, 0),
    ensures
        rewritten(text, directory) == text,
{
    lemma_without_token_unchanged(text, directory);
}

/// Passthrough, of strings: a string without a colon is left as it is.
pub proof fn lemma_passthrough_text(text: Seq<char>, directory: Map<Seq<u8>, Seq<u8>>)
    requires
        no_colon_from(encode_utf8(text), 0),
    ensures
        rewritten_text(text, directory) == text,
{
    lemma_passthrough(encode_utf8(text), directory);
    encode_utf8_decode_utf8(text);
}

/// A shortcode that the directory holds gives way to its glyph, both colons
/// with it: what stands before it stays, and what follows it is rewritten
/// on its own.
pub proof fn lemma_known_token_replaced(
    lead: Seq<u8>,
    name: Seq<u8>,
    rest: Seq<u8>,
    directory: Map<Seq<u8>, Seq<u8>>,
)
    requires
        no_colon_from(lead, 0),
        no_colon_from(name, 0),
        directory.contains_key(delimited(name)),
    ensures
        rewritten(lead + delimited(name) + rest, directory) == lead + directory[delimited(name)]
            + rewritten(rest, directory),
{
    let text = lead + delimited(name) + rest;
    let open = lead.len() as int;
    let close = open + name.len() + 1;
    assert(is_first_token(text, open, close)) by {
        assert forall|k: int| 0 <= k < open implies text[k] != COLON by {
            assert(text[k] == lead[k]);
        }
        assert forall|k: int| open + 1 <= k < close implies text[k] != COLON by {
            assert(text[k] == name[k - open - 1]);
        }
    }
    lemma_first_token_found(text, open, close);
    assert(text.subrange(open, close + 1) =~= delimited(name));
    assert(text.subrange(0, open) =~= lead);
    assert(text.subrange(close + 1, text.len() as int) =~= rest);
}

/// A candidate that the directory does not hold stays as it is, and its
/// closing colon opens the next candidate.
pub proof fn lemma_unknown_token_kept(
    lead: Seq<u8>,
    name: Seq<u8>,
    rest: Seq<u8>,
    directory: Map<Seq<u8>, Seq<u8>>,
)
    requires
        no_colon_from(lead, 0),
        no_colon_from(name, 0),
        !directory.contains_key(delimited(name)),
    ensures
        rewritten(lead + delimited(name) + rest, directory) == lead + seq![COLON] + name
            + rewritten(seq![COLON] + rest, directory),
{
    let text = lead + delimited(name) + rest;
    let open = lead.len() as int;
    let close = open + name.len() + 1;
    assert(is_first_token(text, open, close)) by {
        assert forall|k: int| 0 <= k < open implies text[k] != COLON by {
            assert(text[k] == lead[k]);
        }
        assert forall|k: int| open + 1 <= k < close implies text[k] != COLON by {
            assert(text[k] == name[k - open - 1]);
        }
    }
    lemma_first_token_found(text, open, close);
    assert(text.subrange(open, close + 1) =~= delimited(name));
    assert(text.subrange(0, close) =~= lead + seq![COLON] + name);
    assert(text.subrange(close, text.len() as int) =~= seq![COLON] + rest);
}

/// No part of `text` is a shortcode that `directory` holds.
pub open spec fn holds_no_part_of(directory: Map<Seq<u8>, Seq<u8>>, text: Seq<u8>) -> bool {
    forall|a: int, b: int|
        0 <= a <= b <= text.len() ==> !directory.contains_key(#[trigger] text.subrange(a, b))
}

/// A text of which no part is a shortcode of the directory is left as it is.
pub proof fn lemma_unmatched_unchanged(text: Seq<u8>, directory: Map<Seq<u8>, Seq<u8>>)
    requires
        holds_no_part_of(directory, text),
    ensures
        rewritten(text, directory) == text,
    decreases text.len(),
{
    lemma_first_token(text);
    if let Some((open, close)) = first_token(text) {
        let len = text.len() as int;
        let rest = text.subrange(close, len);
        assert(!directory.contains_key(text.subrange(open, close + 1)));
        assert forall|a: int, b: int| 0 <= a <= b <= rest.len() implies !directory.contains_key(
            #[trigger] rest.subrange(a, b),
        ) by {
            assert(rest.subrange(a, b) =~= text.subrange(close + a, close + b));
        }
        lemma_unmatched_unchanged(rest, directory);
        assert(text.subrange(0, close) + rest =~= text);
    }
}

/// The same, of strings.
pub proof fn lemma_unmatched_unchanged_text(text: Seq<char>, directory: Map<Seq<u8>, Seq<u8>>)
    requires
        holds_no_part_of(directory, encode_utf8(text)),
    ensures
        rewritten_text(text, directory) == text,
{
    lemma_unmatched_unchanged(encode_utf8(text), directory);
    encode_utf8_decode_utf8(text);
}

/// Where the text and every glyph of the directory are valid UTF-8, so is
/// the rewritten text.
pub proof fn lemma_rewritten_is_utf8(text: Seq<u8>, directory: Map<Seq<u8>, Seq<u8>>)
    requires
        valid_utf8(text),
        glyphs_are_utf8(directory),
    ensures
        valid_utf8(rewritten(text, directory)),
    decreases text.len(),
{
    lemma_first_token(text);
    if let Some((open, close)) = first_token(text) {
        let len = text.len() as int;
        let code = text.subrange(open, close + 1);
        lemma_colon_is_boundary(text, open);
        lemma_colon_is_boundary(text, close);
        if directory.contains_key(code) {
            let rest = text.subrange(close + 1, len);
            valid_utf8_split(text, open);
            valid_utf8_split(text, close + 1);
            lemma_rewritten_is_utf8(rest, directory);
            valid_utf8_concat(text.subrange(0, open), directory[code]);
            valid_utf8_concat(text.subrange(0, open) + directory[code], rewritten(rest, directory));
        } else {
            let rest = text.subrange(close, len);
            valid_utf8_split(text, close);
            lemma_rewritten_is_utf8(rest, directory);
            valid_utf8_concat(text.subrange(0, close), rewritten(rest, directory));
        }
    }
}

/// The same, of strings: the rewritten string holds, encoded, exactly the
/// rewritten bytes.
pub proof fn lemma_rewritten_text_encodes(text: Seq<char>, directory: Map<Seq<u8>, Seq<u8>>)
    requires
        glyphs_are_utf8(directory),
    ensures
        encode_utf8(rewritten_text(text, directory)) == rewritten(encode_utf8(text), directory),
{
    encode_utf8_valid_utf8(text);
    lemma_rewritten_is_utf8(encode_utf8(text), directory);
    decode_utf8_encode_utf8(rewritten(encode_utf8(text), directory));
}

} // verus!
