//! The emoji database of the `emojis` crate: as a directory of shortcodes,
//! and as a list of records.

use crate::directory::{glyphs_are_utf8, EmojiDirectory};
use crate::format::texts;
use crate::record::{EmojiRecord, Group, RecordView};
use crate::token::{delimited, lemma_colon_is_boundary, COLON};
use vstd::prelude::*;
use vstd::string::StringSliceAdditionalSpecFns;
use vstd::utf8::*;

verus! {

/// `code` starts and ends with a colon, and these are two colons.
pub open spec fn is_delimited(code: Seq<u8>) -> bool {
    code.len() >= 2 && code[0] == COLON && code[code.len() - 1] == COLON
}

/// What stands between the first and the last byte of `code`.
pub open spec fn inner_name(code: Seq<u8>) -> Seq<u8> {
    code.subrange(1, code.len() - 1)
}

/// The glyph that the emoji database holds for the shortcode `name`, given
/// without colons, if it holds one.
pub uninterp spec fn emoji_for_shortcode(name: Seq<char>) -> Option<Seq<char>>;

/// Calls `emojis::get_by_shortcode`, which looks `name` up in the crate's
/// static table of GitHub shortcodes, and copies the glyph of the emoji found.
/// The contract names the result: the table is fixed, so the same name always
/// gives the same answer.
#[verifier::external_body]
fn emoji_by_shortcode(name: &str) -> (glyph: Option<String>)
    ensures
        match glyph {
            Some(g) => emoji_for_shortcode(name@) == Some(g@),
            None => emoji_for_shortcode(name@) is None,
        },
{
    match emojis::get_by_shortcode(name) {
        Some(emoji) => Some(emoji.as_str().to_string()),
        None => None,
    }
}

/// The database of the `emojis` crate, keyed by GitHub shortcode.
pub struct EmojiDatabase;

impl EmojiDirectory for EmojiDatabase {
    open spec fn entries(&self) -> Map<Seq<u8>, Seq<u8>> {
        Map::new(
            |code: Seq<u8>|
                is_delimited(code) && valid_utf8(inner_name(code)) && emoji_for_shortcode(
                    decode_utf8(inner_name(code)),
                ) is Some,
            |code: Seq<u8>| encode_utf8(emoji_for_shortcode(decode_utf8(inner_name(code))).unwrap()),
        )
    }

    fn lookup_by_shortcode(&self, code: &str) -> (glyph: Option<String>) {
        let bytes = code.as_bytes();
        let len = bytes.len();
        if len < 2 || bytes[0] != COLON || bytes[len - 1] != COLON {
            return None;
        }
        proof {
            encode_utf8_valid_utf8(code@);
            lemma_colon_is_boundary(bytes@, 0);
        }
        let (_, rest) = code.split_at(1);
        proof {
            encode_utf8_valid_utf8(rest@);
            assert(rest.spec_bytes()[len - 2] == bytes@[len - 1]);
            lemma_colon_is_boundary(rest.spec_bytes(), len - 2);
        }
        let (name, _) = rest.split_at(len - 2);
        proof {
            assert(name.spec_bytes() =~= inner_name(bytes@));
            encode_utf8_decode_utf8(name@);
            encode_utf8_valid_utf8(name@);
        }
        emoji_by_shortcode(name)
    }
}

/// The database holds, under a name between two colons, the glyph that it
/// has for that name, and nothing where it has none.
pub proof fn lemma_database_entry(name: Seq<char>)
    ensures
        match emoji_for_shortcode(name) {
            Some(glyph) => EmojiDatabase.entries().contains_key(delimited(encode_utf8(name)))
                && EmojiDatabase.entries()[delimited(encode_utf8(name))] == encode_utf8(glyph),
            None => !EmojiDatabase.entries().contains_key(delimited(encode_utf8(name))),
        },
{
    let code = delimited(encode_utf8(name));
    assert(inner_name(code) =~= encode_utf8(name));
    encode_utf8_valid_utf8(name);
    encode_utf8_decode_utf8(name);
}

/// Every glyph of the emoji database is valid UTF-8.
pub proof fn lemma_database_glyphs_are_utf8()
    ensures
        glyphs_are_utf8(EmojiDatabase.entries()),
{
    assert forall|code: Seq<u8>| #[trigger]
        EmojiDatabase.entries().contains_key(code) implies valid_utf8(
        EmojiDatabase.entries()[code],
    ) by {
        encode_utf8_valid_utf8(emoji_for_shortcode(decode_utf8(inner_name(code))).unwrap());
    }
}

/// The glyph of the emoji that stands at `index` in the database's order,
/// if the database holds that many.
pub uninterp spec fn database_glyph(index: nat) -> Option<Seq<char>>;

/// The name of the emoji at `index`.
pub uninterp spec fn database_name(index: nat) -> Option<Seq<char>>;

/// The Unicode version, major and minor, that brought the emoji at `index`.
pub uninterp spec fn database_version(index: nat) -> Option<(u32, u32)>;

/// The group of the emoji at `index`.
pub uninterp spec fn database_group(index: nat) -> Option<Group>;

/// The shortcodes of the emoji at `index`, in their order.
pub uninterp spec fn database_shortcodes(index: nat) -> Option<Seq<Seq<char>>>;

/// The variants by skin tone of the emoji at `index`, in their order, where
/// it has any.
pub uninterp spec fn database_skin_tones(index: nat) -> Option<Option<Seq<Seq<char>>>>;

/// Calls `emojis::iter`, which walks the crate's static table in its order
/// and leaves out the variants by skin tone, takes the emoji at `index`, and
/// copies the glyph that `Emoji::as_str` gives. The contract names the
/// result: the table is fixed, so the same index always gives the same emoji.
#[verifier::external_body]
fn glyph_at(index: usize) -> (glyph: Option<String>)
    ensures
        match glyph {
            Some(g) => database_glyph(index as nat) == Some(g@),
            None => database_glyph(index as nat) is None,
        },
{
    match emojis::iter().nth(index) {
        Some(emoji) => Some(emoji.as_str().to_string()),
        None => None,
    }
}

/// Takes the emoji at `index` as `glyph_at` does and copies the name that
/// `Emoji::name` gives. The contract names the result.
#[verifier::external_body]
fn name_at(index: usize) -> (name: Option<String>)
    ensures
        match name {
            Some(n) => database_name(index as nat) == Some(n@),
            None => database_name(index as nat) is None,
        },
{
    match emojis::iter().nth(index) {
        Some(emoji) => Some(emoji.name().to_string()),
        None => None,
    }
}

/// Takes the emoji at `index` as `glyph_at` does, calls
/// `Emoji::unicode_version`, and takes the major and the minor number out of
/// it. The contract names the result.
#[verifier::external_body]
fn version_at(index: usize) -> (version: Option<(u32, u32)>)
    ensures
        version == database_version(index as nat),
{
    match emojis::iter().nth(index) {
        Some(emoji) => Some((emoji.unicode_version().major(), emoji.unicode_version().minor())),
        None => None,
    }
}

/// Takes the emoji at `index` as `glyph_at` does, calls `Emoji::group`, and
/// gives the group of the same name. The contract names the result.
#[verifier::external_body]
fn group_at(index: usize) -> (group: Option<Group>)
    ensures
        group == database_group(index as nat),
{
    Some(match emojis::iter().nth(index)?.group() {
        emojis::Group::SmileysAndEmotion => Group::SmileysAndEmotion,
        emojis::Group::PeopleAndBody => Group::PeopleAndBody,
        emojis::Group::AnimalsAndNature => Group::AnimalsAndNature,
        emojis::Group::FoodAndDrink => Group::FoodAndDrink,
        emojis::Group::TravelAndPlaces => Group::TravelAndPlaces,
        emojis::Group::Activities => Group::Activities,
        emojis::Group::Objects => Group::Objects,
        emojis::Group::Symbols => Group::Symbols,
        emojis::Group::Flags => Group::Flags,
    })
}

/// Takes the emoji at `index` as `glyph_at` does, calls `Emoji::shortcodes`,
/// and copies each shortcode, in the order given. The contract names the
/// result.
#[verifier::external_body]
fn shortcodes_at(index: usize) -> (shortcodes: Option<Vec<String>>)
    ensures
        match shortcodes {
            Some(codes) => database_shortcodes(index as nat) == Some(texts(codes@)),
            None => database_shortcodes(index as nat) is None,
        },
{
    match emojis::iter().nth(index) {
        Some(emoji) => Some(emoji.shortcodes().map(|code| code.to_string()).collect()),
        None => None,
    }
}

/// Takes the emoji at `index` as `glyph_at` does, calls `Emoji::skin_tones`,
/// and, where the emoji has variants by skin tone, copies the glyph of each,
/// in the order given. The contract names the result.
#[verifier::external_body]
fn skin_tones_at(index: usize) -> (tones: Option<Option<Vec<String>>>)
    ensures
        match tones {
            Some(Some(glyphs)) => database_skin_tones(index as nat) == Some(Some(texts(glyphs@))),
            Some(None) => database_skin_tones(index as nat) == Some(None::<Seq<Seq<char>>>),
            None => database_skin_tones(index as nat) is None,
        },
{
    match emojis::iter().nth(index)?.skin_tones() {
        Some(tones) => Some(Some(tones.map(|tone| tone.as_str().to_string()).collect())),
        None => Some(None),
    }
}

/// What the database holds at `index` in its order, where it holds every
/// field of an emoji there.
pub open spec fn database_entry(index: nat) -> Option<RecordView> {
    match (
        database_glyph(index),
        database_name(index),
        database_version(index),
        database_group(index),
        database_shortcodes(index),
        database_skin_tones(index),
    ) {
        (Some(glyph), Some(name), Some(version), Some(group), Some(shortcodes), Some(skin_tones)) => {
            Some(
                RecordView {
                    glyph,
                    name,
                    unicode_major: version.0,
                    unicode_minor: version.1,
                    group,
                    shortcodes,
                    skin_tones,
                },
            )
        },
        _ => None,
    }
}

/// `records` are the entries of the database in its order: from the first
/// one on, up to where the database holds no more.
pub open spec fn is_whole_database(records: Seq<EmojiRecord>) -> bool {
    &&& forall|k: int|
        0 <= k < records.len() ==> database_entry(k as nat) == Some((#[trigger] records[k])@)
    &&& records.len() < usize::MAX ==> database_entry(records.len()) is None
}

impl EmojiDatabase {
    /// The emoji at `index` in the database's order as a record, if the
    /// database holds one there.
    pub fn record_at(&self, index: usize) -> (record: Option<EmojiRecord>)
        ensures
            match record {
                Some(r) => database_entry(index as nat) == Some(r@),
                None => database_entry(index as nat) is None,
            },
    {
        let glyph = match glyph_at(index) {
            Some(g) => g,
            None => { return None; },
        };
        let name = match name_at(index) {
            Some(n) => n,
            None => { return None; },
        };
        let (unicode_major, unicode_minor) = match version_at(index) {
            Some(v) => v,
            None => { return None; },
        };
        let group = match group_at(index) {
            Some(g) => g,
            None => { return None; },
        };
        let shortcodes = match shortcodes_at(index) {
            Some(codes) => codes,
            None => { return None; },
        };
        let skin_tones = match skin_tones_at(index) {
            Some(tones) => tones,
            None => { return None; },
        };
        Some(
            EmojiRecord {
                glyph,
                name,
                unicode_major,
                unicode_minor,
                group,
                shortcodes,
                skin_tones,
            },
        )
    }

    /// Every emoji of the database as a record, in the database's order: the
    /// entries from the first one on, up to where the database holds no more.
    pub fn records(&self) -> (records: Vec<EmojiRecord>)
        ensures
            is_whole_database(records@),
    {
        let mut records: Vec<EmojiRecord> = Vec::new();
        let mut index: usize = 0;
        while index < usize::MAX
            invariant
                records@.len() == index,
                forall|k: int|
                    0 <= k < records@.len() ==> database_entry(k as nat) == Some(
                        (#[trigger] records@[k])@,
                    ),
            decreases usize::MAX - index,
        {
            match self.record_at(index) {
                Some(record) => {
                    records.push(record);
                },
                None => {
                    return records;
                },
            }
            index += 1;
        }
        records
    }
}

} // verus!
