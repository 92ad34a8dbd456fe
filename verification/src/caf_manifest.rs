//! The manifest section: the files that a document refers to, each under a
//! short key.

use vstd::prelude::*;
use vstd::slice::*;
use vstd::string::*;
use vstd::utf8::encode_utf8;
use crate::caf_fill::{CafFill, fill_or};

verus! {

/// The path of a file. It is written between double quotes.
#[derive(Debug, Clone, PartialEq)]
pub struct CafFilePath(pub String);

impl View for CafFilePath {
    type V = Seq<char>;

    open spec fn view(&self) -> Seq<char> {
        self.0@
    }
}

/// The text of a file path: the path between double quotes.
pub open spec fn file_path_text(path: Seq<char>) -> Seq<u8> {
    "\"".spec_bytes() + encode_utf8(path) + "\"".spec_bytes()
}

impl CafFilePath {
    /// Writes the path between double quotes.
    pub fn write_to(&self, writer: &mut Vec<u8>)
        ensures
            final(writer)@ == old(writer)@ + file_path_text(self@),
    {
        writer.extend_from_slice("\"".as_bytes());
        writer.extend_from_slice(self.0.as_str().as_bytes());
        writer.extend_from_slice("\"".as_bytes());
    }
}

impl Default for CafFilePath {
    /// The empty path.
    fn default() -> (path: CafFilePath)
        ensures
            path@ == Seq::<char>::empty(),
    {
        CafFilePath(String::new())
    }
}

/// The file of a manifest entry: the document itself, or another file.
#[derive(Debug, Clone, PartialEq)]
pub enum CafManifestFile {
    SelfRef,
    File(CafFilePath),
}

/// A [`CafManifestFile`] as a mathematical value.
pub enum ManifestFileModel {
    SelfRef,
    File(Seq<char>),
}

impl ManifestFileModel {
    /// The text of the file: the keyword `self`, or the quoted path.
    pub open spec fn text(self) -> Seq<u8> {
        match self {
            ManifestFileModel::SelfRef => "self".spec_bytes(),
            ManifestFileModel::File(path) => file_path_text(path),
        }
    }
}

impl View for CafManifestFile {
    type V = ManifestFileModel;

    open spec fn view(&self) -> ManifestFileModel {
        match self {
            CafManifestFile::SelfRef => ManifestFileModel::SelfRef,
            CafManifestFile::File(path) => ManifestFileModel::File(path@),
        }
    }
}

impl CafManifestFile {
    /// Writes the keyword `self`, or the quoted path.
    pub fn write_to(&self, writer: &mut Vec<u8>)
        ensures
            final(writer)@ == old(writer)@ + self@.text(),
    {
        match self {
            CafManifestFile::SelfRef => {
                writer.extend_from_slice("self".as_bytes());
            },
            CafManifestFile::File(file) => {
                file.write_to(writer);
            },
        }
    }
}

impl Default for CafManifestFile {
    /// The file with the empty path.
    fn default() -> (file: CafManifestFile)
        ensures
            file@ == ManifestFileModel::File(Seq::empty()),
    {
        CafManifestFile::File(CafFilePath::default())
    }
}

/// The key under which a manifest entry makes its file known.
#[derive(Debug, Clone, PartialEq)]
pub struct CafManifestKey(pub String);

impl View for CafManifestKey {
    type V = Seq<char>;

    open spec fn view(&self) -> Seq<char> {
        self.0@
    }
}

/// Whether `byte` may stand in a part of a key: a lowercase letter, a digit
/// or an underscore.
pub open spec fn is_key_byte(byte: u8) -> bool {
    (0x61 <= byte <= 0x7A) || (0x30 <= byte <= 0x39) || byte == 0x5F
}

/// Whether `key` is a well-formed key: one or more parts with a dot between
/// each two, where a part is one or more lowercase letters, digits and
/// underscores. So a key neither starts nor ends with a dot.
pub open spec fn is_key(key: Seq<u8>) -> bool {
    &&& key.len() > 0
    &&& forall|i: int| 0 <= i < key.len() ==> is_key_byte(#[trigger] key[i]) || key[i] == 0x2E
    &&& forall|i: int|
        0 <= i < key.len() && #[trigger] key[i] == 0x2E ==> 0 < i < key.len() - 1 && key[i - 1]
            != 0x2E
}

impl CafManifestKey {
    /// Tests whether the key is well-formed.
    pub fn is_valid(&self) -> (valid: bool)
        ensures
            valid == is_key(encode_utf8(self@)),
    {
        let bytes = self.0.as_str().as_bytes();
        if bytes.len() == 0 {
            return false;
        }
        let mut i: usize = 0;
        while i < bytes.len()
            invariant
                i <= bytes.len(),
                bytes.len() > 0,
                bytes@ == encode_utf8(self@),
                forall|k: int| 0 <= k < i ==> is_key_byte(#[trigger] bytes@[k]) || bytes@[k] == 0x2E,
                forall|k: int|
                    0 <= k < i && #[trigger] bytes@[k] == 0x2E ==> 0 < k < bytes.len() - 1
                        && bytes@[k - 1] != 0x2E,
            decreases bytes.len() - i,
        {
            let byte = bytes[i];
            if byte == 0x2E {
                if i == 0 || i == bytes.len() - 1 || bytes[i - 1] == 0x2E {
                    assert(bytes@[i as int] == 0x2E);
                    return false;
                }
            } else if !((0x61 <= byte && byte <= 0x7A) || (0x30 <= byte && byte <= 0x39) || byte
                == 0x5F) {
                assert(!is_key_byte(bytes@[i as int]));
                return false;
            }
            i += 1;
        }
        true
    }

    /// Writes the key.
    pub fn write_to(&self, writer: &mut Vec<u8>)
        ensures
            final(writer)@ == old(writer)@ + encode_utf8(self@),
    {
        writer.extend_from_slice(self.0.as_str().as_bytes());
    }
}

impl Default for CafManifestKey {
    /// The empty key.
    fn default() -> (key: CafManifestKey)
        ensures
            key@ == Seq::<char>::empty(),
    {
        CafManifestKey(String::new())
    }
}

/// {file} as {key}
#[derive(Debug, Clone, PartialEq)]
pub struct CafManifestEntry {
    pub entry_fill: CafFill,
    pub file: CafManifestFile,
    pub as_fill: CafFill,
    pub key_fill: CafFill,
    pub key: CafManifestKey,
}

/// A [`CafManifestEntry`] as a mathematical value.
pub struct ManifestEntryModel {
    pub entry_fill: Seq<char>,
    pub file: ManifestFileModel,
    pub as_fill: Seq<char>,
    pub key_fill: Seq<char>,
    pub key: Seq<char>,
}

impl ManifestEntryModel {
    /// The text of the entry: the file, `as` and the key, each after its
    /// fill. Where a fill is missing, the entry starts on a new line and a
    /// single space stands before `as` and before the key.
    pub open spec fn text(self) -> Seq<u8> {
        fill_or(self.entry_fill, "\n".spec_bytes()) + self.file.text() + fill_or(
            self.as_fill,
            " ".spec_bytes(),
        ) + "as".spec_bytes() + fill_or(self.key_fill, " ".spec_bytes()) + encode_utf8(self.key)
    }
}

impl View for CafManifestEntry {
    type V = ManifestEntryModel;

    open spec fn view(&self) -> ManifestEntryModel {
        ManifestEntryModel {
            entry_fill: self.entry_fill@,
            file: self.file@,
            as_fill: self.as_fill@,
            key_fill: self.key_fill@,
            key: self.key@,
        }
    }
}

impl CafManifestEntry {
    /// Writes the entry.
    pub fn write_to(&self, writer: &mut Vec<u8>)
        ensures
            final(writer)@ == old(writer)@ + self@.text(),
    {
        self.entry_fill.write_to_or_else(writer, "\n");
        self.file.write_to(writer);
        self.as_fill.write_to_or_else(writer, " ");
        writer.extend_from_slice("as".as_bytes());
        self.key_fill.write_to_or_else(writer, " ");
        self.key.write_to(writer);
    }

    /// Makes a new entry with default spacing.
    pub fn new(file: &str, key: &str) -> (entry: CafManifestEntry)
        ensures
            entry@ == (ManifestEntryModel {
                entry_fill: "\n"@,
                file: ManifestFileModel::File(file@),
                as_fill: " "@,
                key_fill: " "@,
                key: key@,
            }),
    {
        CafManifestEntry {
            entry_fill: CafFill::new("\n"),
            file: CafManifestFile::File(CafFilePath(file.to_owned())),
            as_fill: CafFill::new(" "),
            key_fill: CafFill::new(" "),
            key: CafManifestKey(key.to_owned()),
        }
    }
}

impl Default for CafManifestEntry {
    /// The entry with default spacing, the empty path and the empty key.
    fn default() -> (entry: CafManifestEntry)
        ensures
            entry@ == (ManifestEntryModel {
                entry_fill: "\n"@,
                file: ManifestFileModel::File(Seq::empty()),
                as_fill: " "@,
                key_fill: " "@,
                key: Seq::empty(),
            }),
    {
        CafManifestEntry {
            entry_fill: CafFill::new("\n"),
            file: CafManifestFile::default(),
            as_fill: CafFill::new(" "),
            key_fill: CafFill::new(" "),
            key: CafManifestKey::default(),
        }
    }
}

/// The manifest section of a document.
#[derive(Debug, Clone, PartialEq)]
pub struct CafManifest {
    pub start_fill: CafFill,
    pub entries: Vec<CafManifestEntry>,
}

/// A [`CafManifest`] as a mathematical value.
pub struct ManifestModel {
    pub start_fill: Seq<char>,
    pub entries: Seq<ManifestEntryModel>,
}

/// The tag that opens the manifest section.
pub open spec fn manifest_tag() -> Seq<u8> {
    "#manifest".spec_bytes()
}

/// The default spacing in front of a section: none in front of the first
/// section of a document, an empty line in front of a later one.
pub open spec fn section_spacing(first_section: bool) -> Seq<u8> {
    if first_section {
        "".spec_bytes()
    } else {
        "\n\n".spec_bytes()
    }
}

/// The text of the entries, in order.
pub open spec fn manifest_entries_text(entries: Seq<ManifestEntryModel>) -> Seq<u8>
    decreases entries.len(),
{
    if entries.len() == 0 {
        Seq::empty()
    } else {
        manifest_entries_text(entries.drop_last()) + entries.last().text()
    }
}

/// What parsing a manifest gives: the manifest, if there is one, the fill
/// that is left for what follows, and the text that is left.
pub struct ManifestParse {
    pub manifest: Option<ManifestModel>,
    pub fill: Seq<char>,
    pub remaining: Seq<u8>,
}

impl ManifestModel {
    /// The text of the section: the tag after its fill, then the entries.
    pub open spec fn text(self, first_section: bool) -> Seq<u8> {
        fill_or(self.start_fill, section_spacing(first_section)) + manifest_tag()
            + manifest_entries_text(self.entries)
    }

    /// The outcome of parsing a manifest at the start of `content`, with
    /// `fill` the fill that was read in front of it.
    ///
    /// Where `content` starts with the tag, there is a manifest. It takes
    /// the fill and has no entries, and the text after the tag is left.
    /// Where it does not, there is none, and fill and text are left as they
    /// were.
    pub open spec fn parse(content: Seq<u8>, fill: Seq<char>) -> ManifestParse {
        if manifest_tag().is_prefix_of(content) {
            ManifestParse {
                manifest: Some(ManifestModel { start_fill: fill, entries: Seq::empty() }),
                fill: Seq::empty(),
                remaining: content.skip(manifest_tag().len() as int),
            }
        } else {
            ManifestParse { manifest: None, fill, remaining: content }
        }
    }
}

impl View for CafManifest {
    type V = ManifestModel;

    open spec fn view(&self) -> ManifestModel {
        ManifestModel {
            start_fill: self.start_fill@,
            entries: Seq::new(self.entries.len() as nat, |i: int| self.entries[i]@),
        }
    }
}

/// Tests whether `content` starts with `tag`.
fn starts_with(content: &[u8], tag: &[u8]) -> (res: bool)
    ensures
        res == tag@.is_prefix_of(content@),
{
    if content.len() < tag.len() {
        return false;
    }
    let mut i: usize = 0;
    while i < tag.len()
        invariant
            i <= tag.len() <= content.len(),
            forall|k: int| 0 <= k < i ==> content@[k] == tag@[k],
        decreases tag.len() - i,
    {
        if content[i] != tag[i] {
            return false;
        }
        i += 1;
    }
    assert(content@.subrange(0, tag@.len() as int) =~= tag@);
    true
}

impl CafManifest {
    /// Writes the section: the start fill, or the default spacing of a
    /// section where there is none, then the tag and the entries.
    pub fn write_to(&self, first_section: bool, writer: &mut Vec<u8>)
        ensures
            final(writer)@ == old(writer)@ + self@.text(first_section),
    {
        let ghost before = writer@;
        let ghost opening = fill_or(self.start_fill@, section_spacing(first_section))
            + manifest_tag();
        let space = if first_section {
            ""
        } else {
            "\n\n"
        };
        self.start_fill.write_to_or_else(writer, space);
        writer.extend_from_slice("#manifest".as_bytes());
        let mut idx: usize = 0;
        while idx < self.entries.len()
            invariant
                idx <= self.entries.len(),
                writer@ == before + opening + manifest_entries_text(self@.entries.take(idx as int)),
            decreases self.entries.len() - idx,
        {
            proof {
                assert(self@.entries.take(idx + 1).drop_last() =~= self@.entries.take(idx as int));
            }
            self.entries[idx].write_to(writer);
            idx += 1;
        }
        assert(self@.entries.take(idx as int) =~= self@.entries);
    }

    /// Parses a manifest at the start of `content`. `fill` is the fill that
    /// was read in front of `content`.
    ///
    /// Returns the manifest, if `content` starts with its tag, the fill that
    /// is left for what follows, and the text that is left. Where there is
    /// no manifest, `fill` and `content` come back as they were given.
    pub fn try_parse(content: &[u8], fill: CafFill) -> (res: (Option<CafManifest>, CafFill, &[u8]))
        ensures
            (ManifestParse {
                manifest: match res.0 {
                    Some(manifest) => Some(manifest@),
                    None => None,
                },
                fill: res.1@,
                remaining: res.2@,
            }) == ManifestModel::parse(content@, fill@),
            res.0 is None ==> res.1 == fill && res.2 == content,
    {
        let tag = "#manifest".as_bytes();
        if !starts_with(content, tag) {
            return (None, fill, content);
        }
        let remaining = slice_subrange(content, tag.len(), content.len());

        let manifest = CafManifest { start_fill: fill, entries: Vec::new() };
        assert(manifest@.entries =~= Seq::<ManifestEntryModel>::empty());
        (Some(manifest), CafFill::default(), remaining)
    }
}

impl Default for CafManifest {
    /// The manifest with no fill and no entries.
    fn default() -> (manifest: CafManifest)
        ensures
            manifest@ == (ManifestModel { start_fill: Seq::empty(), entries: Seq::empty() }),
    {
        let manifest = CafManifest { start_fill: CafFill::default(), entries: Vec::new() };
        assert(manifest@.entries =~= Seq::<ManifestEntryModel>::empty());
        manifest
    }
}

} // verus!
