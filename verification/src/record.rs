//! The emoji database as plain records, and the rows of text that list it.

use crate::format::{decimal, digits, hex_upper, join, join_with, joined, texts};
use vstd::prelude::*;
use vstd::string::StringExecFns;
use vstd::utf8::encode_utf8;

verus! {

/// The category of an emoji.
#[derive(Clone, Copy, Debug, PartialEq, Eq, Structural)]
pub enum Group {
    SmileysAndEmotion,
    PeopleAndBody,
    AnimalsAndNature,
    FoodAndDrink,
    TravelAndPlaces,
    Activities,
    Objects,
    Symbols,
    Flags,
}

impl Group {
    /// The group's name, as one word.
    pub open spec fn spec_label(self) -> Seq<char> {
        match self {
            Group::SmileysAndEmotion => "SmileysAndEmotion"@,
            Group::PeopleAndBody => "PeopleAndBody"@,
            Group::AnimalsAndNature => "AnimalsAndNature"@,
            Group::FoodAndDrink => "FoodAndDrink"@,
            Group::TravelAndPlaces => "TravelAndPlaces"@,
            Group::Activities => "Activities"@,
            Group::Objects => "Objects"@,
            Group::Symbols => "Symbols"@,
            Group::Flags => "Flags"@,
        }
    }

    /// The group's name, as one word.
    pub fn label(self) -> (text: &'static str)
        ensures
            text@ == self.spec_label(),
    {
        match self {
            Group::SmileysAndEmotion => "SmileysAndEmotion",
            Group::PeopleAndBody => "PeopleAndBody",
            Group::AnimalsAndNature => "AnimalsAndNature",
            Group::FoodAndDrink => "FoodAndDrink",
            Group::TravelAndPlaces => "TravelAndPlaces",
            Group::Activities => "Activities",
            Group::Objects => "Objects",
            Group::Symbols => "Symbols",
            Group::Flags => "Flags",
        }
    }
}

/// One emoji of the database.
pub struct EmojiRecord {
    /// The emoji itself.
    pub glyph: String,
    /// Its name.
    pub name: String,
    /// The major number of the Unicode version that brought it.
    pub unicode_major: u32,
    /// The minor number of that version.
    pub unicode_minor: u32,
    /// Its category.
    pub group: Group,
    /// Its shortcodes, without colons.
    pub shortcodes: Vec<String>,
    /// Its variants by skin tone, where it has any.
    pub skin_tones: Option<Vec<String>>,
}

/// What a record holds, as plain values.
pub struct RecordView {
    pub glyph: Seq<char>,
    pub name: Seq<char>,
    pub unicode_major: u32,
    pub unicode_minor: u32,
    pub group: Group,
    pub shortcodes: Seq<Seq<char>>,
    pub skin_tones: Option<Seq<Seq<char>>>,
}

impl View for EmojiRecord {
    type V = RecordView;

    open spec fn view(&self) -> RecordView {
        RecordView {
            glyph: self.glyph@,
            name: self.name@,
            unicode_major: self.unicode_major,
            unicode_minor: self.unicode_minor,
            group: self.group,
            shortcodes: texts(self.shortcodes@),
            skin_tones: match self.skin_tones {
                Some(glyphs) => Some(texts(glyphs@)),
                None => None,
            },
        }
    }
}

/// One row of the listing: a record with every field as text.
pub struct Row {
    pub emoji: String,
    pub name: String,
    pub unicode_version: String,
    pub group: String,
    pub utf8_bytes: String,
    pub codepoints: String,
    pub shortcodes: String,
    pub skin_tones: String,
}

/// A version as text: both numbers in decimal with a dot between them.
pub open spec fn version_text(major: u32, minor: u32) -> Seq<char> {
    digits(major as nat, 10) + seq!['.'] + digits(minor as nat, 10)
}

/// A version as text.
pub fn format_version(major: u32, minor: u32) -> (text: String)
    ensures
        text@ == version_text(major, minor),
{
    proof {
        reveal_strlit(".");
    }
    let mut text = decimal(major);
    text.append(".");
    text.append(decimal(minor).as_str());
    assert(text@ =~= version_text(major, minor));
    text
}

/// Each character's number in hexadecimal.
pub open spec fn codepoint_texts(glyph: Seq<char>) -> Seq<Seq<char>> {
    Seq::new(glyph.len(), |k: int| digits(glyph[k] as u32 as nat, 16))
}

/// The characters of a glyph as text: each one's number in hexadecimal,
/// with a blank between each two.
pub open spec fn codepoints_text(glyph: Seq<char>) -> Seq<char> {
    joined(codepoint_texts(glyph), seq![' '])
}

/// The characters of `glyph` as text.
pub fn format_codepoints(glyph: &str) -> (text: String)
    ensures
        text@ == codepoints_text(glyph@),
{
    proof {
        reveal_strlit(" ");
    }
    let count = glyph.unicode_len();
    let mut parts: Vec<String> = Vec::new();
    let mut k: usize = 0;
    while k < count
        invariant
            count == glyph@.len(),
            k <= count,
            parts@.len() == k,
            forall|t: int| 0 <= t < k ==> (#[trigger] parts@[t])@ == digits(glyph@[t] as u32 as nat, 16),
        decreases count - k,
    {
        let c = glyph.get_char(k);
        parts.push(hex_upper(c as u32));
        k += 1;
    }
    assert(texts(parts@) =~= codepoint_texts(glyph@));
    assert(" "@ =~= seq![' ']);
    join_with(&parts, " ")
}

/// Each byte in hexadecimal.
pub open spec fn byte_texts(bytes: Seq<u8>) -> Seq<Seq<char>> {
    Seq::new(bytes.len(), |k: int| digits(bytes[k] as nat, 16))
}

/// Bytes as text: each one in hexadecimal, with a comma and a blank between
/// each two, in square brackets.
pub open spec fn bytes_text(bytes: Seq<u8>) -> Seq<char> {
    seq!['['] + joined(byte_texts(bytes), seq![',', ' ']) + seq![']']
}

/// `bytes` as text.
pub fn format_bytes(bytes: &[u8]) -> (text: String)
    ensures
        text@ == bytes_text(bytes@),
{
    proof {
        reveal_strlit("[");
        reveal_strlit(", ");
        reveal_strlit("]");
    }
    let mut parts: Vec<String> = Vec::new();
    let mut k: usize = 0;
    while k < bytes.len()
        invariant
            k <= bytes@.len(),
            parts@.len() == k,
            forall|t: int| 0 <= t < k ==> (#[trigger] parts@[t])@ == digits(bytes@[t] as nat, 16),
        decreases bytes.len() - k,
    {
        parts.push(hex_upper(bytes[k] as u32));
        k += 1;
    }
    assert(texts(parts@) =~= byte_texts(bytes@));
    assert(", "@ =~= seq![',', ' ']);
    let mut text = String::new();
    text.append("[");
    text.append(join_with(&parts, ", ").as_str());
    text.append("]");
    assert(text@ =~= bytes_text(bytes@));
    text
}

/// Names as text: with a comma and a blank between each two.
pub open spec fn list_text(names: Seq<String>) -> Seq<char> {
    joined(texts(names), seq![',', ' '])
}

/// The variants of a record as text: none where it has none.
pub open spec fn variants_text(variants: Option<Vec<String>>) -> Seq<char> {
    match variants {
        Some(names) => list_text(names@),
        None => Seq::empty(),
    }
}

impl EmojiRecord {
    /// The row that lists this record.
    pub open spec fn spec_row(&self, row: Row) -> bool {
        &&& row.emoji@ == self.glyph@
        &&& row.name@ == self.name@
        &&& row.unicode_version@ == version_text(self.unicode_major, self.unicode_minor)
        &&& row.group@ == self.group.spec_label()
        &&& row.utf8_bytes@ == bytes_text(encode_utf8(self.glyph@))
        &&& row.codepoints@ == codepoints_text(self.glyph@)
        &&& row.shortcodes@ == list_text(self.shortcodes@)
        &&& row.skin_tones@ == variants_text(self.skin_tones)
    }

    /// The bytes of the emoji.
    pub fn raw_bytes(&self) -> (bytes: &[u8])
        ensures
            bytes@ == encode_utf8(self.glyph@),
    {
        self.glyph.as_str().as_bytes()
    }

    /// Turns every field into text.
    pub fn to_row(&self) -> (row: Row)
        ensures
            self.spec_row(row),
    {
        proof {
            reveal_strlit(", ");
            assert(", "@ =~= seq![',', ' ']);
        }
        let skin_tones = match &self.skin_tones {
            Some(names) => join_with(names, ", "),
            None => String::new(),
        };
        Row {
            emoji: self.glyph.clone(),
            name: self.name.clone(),
            unicode_version: format_version(self.unicode_major, self.unicode_minor),
            group: self.group.label().to_owned(),
            utf8_bytes: format_bytes(self.raw_bytes()),
            codepoints: format_codepoints(self.glyph.as_str()),
            shortcodes: join(&self.shortcodes, ", "),
            skin_tones,
        }
    }
}

/// The rows that list `records`, one for each, in their order.
pub fn to_rows(records: &Vec<EmojiRecord>) -> (rows: Vec<Row>)
    ensures
        rows@.len() == records@.len(),
        forall|k: int| 0 <= k < records@.len() ==> (#[trigger] records@[k]).spec_row(rows@[k]),
{
    let mut rows: Vec<Row> = Vec::new();
    let mut k: usize = 0;
    while k < records.len()
        invariant
            k <= records@.len(),
            rows@.len() == k,
            forall|t: int| 0 <= t < k ==> (#[trigger] records@[t]).spec_row(rows@[t]),
        decreases records.len() - k,
    {
        rows.push(records[k].to_row());
        k += 1;
    }
    rows
}

} // verus!
