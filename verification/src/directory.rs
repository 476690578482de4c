//! Emoji directories: read-only tables from shortcodes, colons included, to
//! glyphs.

use vstd::prelude::*;
use vstd::string::StringSliceAdditionalSpecFns;
use vstd::utf8::{encode_utf8, encode_utf8_valid_utf8, valid_utf8};

verus! {

/// A read-only table from shortcodes to glyphs.
pub trait EmojiDirectory {
    /// What the directory holds: the UTF-8 bytes of each glyph, under the
    /// UTF-8 bytes of its shortcode with both colons.
    spec fn entries(&self) -> Map<Seq<u8>, Seq<u8>>;

    /// Looks `code`, a shortcode with its colons, up by exact match.
    fn lookup_by_shortcode(&self, code: &str) -> (glyph: Option<String>)
        ensures
            match glyph {
                Some(g) => self.entries().contains_key(code.spec_bytes())
                    && self.entries()[code.spec_bytes()] == encode_utf8(g@),
                None => !self.entries().contains_key(code.spec_bytes()),
            },
    ;
}

/// Every glyph of `directory` is valid UTF-8.
pub open spec fn glyphs_are_utf8(directory: Map<Seq<u8>, Seq<u8>>) -> bool {
    forall|code: Seq<u8>| #[trigger]
        directory.contains_key(code) ==> valid_utf8(directory[code])
}

/// The entries that a list of pairs of shortcode and glyph stands for: a
/// later pair replaces an earlier one with the same shortcode.
pub open spec fn entries_of(pairs: Seq<(String, String)>) -> Map<Seq<u8>, Seq<u8>>
    decreases pairs.len(),
{
    if pairs.len() == 0 {
        Map::empty()
    } else {
        entries_of(pairs.drop_last()).insert(
            encode_utf8(pairs.last().0@),
            encode_utf8(pairs.last().1@),
        )
    }
}

/// Every glyph that a list of pairs stands for is valid UTF-8.
pub proof fn lemma_entries_of_are_utf8(pairs: Seq<(String, String)>)
    ensures
        glyphs_are_utf8(entries_of(pairs)),
    decreases pairs.len(),
{
    if pairs.len() > 0 {
        lemma_entries_of_are_utf8(pairs.drop_last());
        encode_utf8_valid_utf8(pairs.last().1@);
    }
}

/// Whether `a` and `b` hold the same bytes.
pub fn same_bytes(a: &[u8], b: &[u8]) -> (same: bool)
    ensures
        same == (a@ == b@),
{
    if a.len() != b.len() {
        return false;
    }
    let mut k: usize = 0;
    while k < a.len()
        invariant
            a@.len() == b@.len(),
            k <= a@.len(),
            forall|t: int| 0 <= t < k ==> a@[t] == b@[t],
        decreases a.len() - k,
    {
        if a[k] != b[k] {
            return false;
        }
        k += 1;
    }
    assert(a@ =~= b@);
    true
}

/// A directory that is filled entry by entry.
pub struct TableDirectory {
    pairs: Vec<(String, String)>,
}

impl TableDirectory {
    /// A directory without entries.
    pub fn new() -> (table: Self)
        ensures
            table.entries() == Map::<Seq<u8>, Seq<u8>>::empty(),
    {
        TableDirectory { pairs: Vec::new() }
    }

    /// Enters `glyph` under `code`, the shortcode with its colons, in place of
    /// what stood there.
    pub fn insert(&mut self, code: &str, glyph: &str)
        ensures
            final(self).entries() == old(self).entries().insert(
                code.spec_bytes(),
                glyph.spec_bytes(),
            ),
    {
        self.pairs.push((code.to_owned(), glyph.to_owned()));
        assert(self.pairs@.drop_last() =~= old(self).pairs@);
    }

    /// Every glyph of the directory is valid UTF-8.
    pub proof fn lemma_glyphs_are_utf8(&self)
        ensures
            glyphs_are_utf8(self.entries()),
    {
        lemma_entries_of_are_utf8(self.pairs@);
    }
}

impl EmojiDirectory for TableDirectory {
    closed spec fn entries(&self) -> Map<Seq<u8>, Seq<u8>> {
        entries_of(self.pairs@)
    }

    fn lookup_by_shortcode(&self, code: &str) -> (glyph: Option<String>) {
        let wanted = code.as_bytes();
        let mut k: usize = self.pairs.len();
        assert(self.pairs@.take(k as int) =~= self.pairs@);
        while k > 0
            invariant
                k <= self.pairs@.len(),
                wanted@ == code.spec_bytes(),
                entries_of(self.pairs@).contains_key(wanted@) == entries_of(
                    self.pairs@.take(k as int),
                ).contains_key(wanted@),
                entries_of(self.pairs@).contains_key(wanted@) ==> entries_of(self.pairs@)[wanted@]
                    == entries_of(self.pairs@.take(k as int))[wanted@],
            decreases k,
        {
            k -= 1;
            let ghost upto = self.pairs@.take(k + 1);
            assert(upto.drop_last() =~= self.pairs@.take(k as int));
            assert(upto.last() == self.pairs@[k as int]);
            if same_bytes(self.pairs[k].0.as_str().as_bytes(), wanted) {
                return Some(self.pairs[k].1.clone());
            }
        }
        assert(self.pairs@.take(0) =~= Seq::<(String, String)>::empty());
        None
    }
}

} // verus!
