use pelite::pe64::{Pe, PeView};
use pelite::resources::version_info::VersionInfo;
use pelite::resources::Name;
use vstd::prelude::*;

use crate::game_version::{
    language_pairs, string_pairs, verdict, Language, MetadataVerdict, ProductVersion,
    VersionMetadata,
};

verus! {

// A version resource is a tree of nodes. Each node starts with three words
// (its length in bytes, the length of its value and its type), then a key
// ended by a zero word, padding to a four-byte boundary, the value, padding,
// and the node's children. The specifications below follow the way pelite's
// version parser walks that tree, with positions counted in words.

/// How the value length of a node is counted.
#[derive(Clone, Copy)]
pub enum ValueLength {
    /// The value length must be zero.
    Zero,
    /// The value length is given in bytes.
    Bytes,
    /// The value length is given in words.
    Words,
}

/// The kind of the nodes below the root of a version resource.
#[derive(Clone, Copy)]
pub enum Level {
    /// The children of the root: `StringFileInfo` and `VarFileInfo`.
    FileInfo,
    /// The string tables of a `StringFileInfo`, one per language.
    StringTable,
    /// The strings of a string table.
    String,
    /// The variables of a `VarFileInfo`, such as `Translation`.
    Var,
}

/// How the value length of the nodes of a level is counted.
pub open spec fn level_value_length(level: Level) -> ValueLength {
    match level {
        Level::FileInfo => ValueLength::Zero,
        Level::StringTable => ValueLength::Zero,
        Level::String => ValueLength::Words,
        Level::Var => ValueLength::Bytes,
    }
}

/// `n` rounded up to an even number.
pub open spec fn align2(n: int) -> int {
    if n % 2 == 0 {
        n
    } else {
        n + 1
    }
}

/// The smaller of two integers.
pub open spec fn at_most(a: int, b: int) -> int {
    if a <= b {
        a
    } else {
        b
    }
}

/// The number of words from `from` before the first zero word, or up to
/// `to` when there is none.
pub open spec fn zero_free_len(words: Seq<u16>, from: int, to: int) -> nat
    decreases to - from,
{
    if to <= from {
        0
    } else if words[from] == 0 {
        0
    } else {
        1 + zero_free_len(words, from + 1, to)
    }
}

/// Where the parts of one node lie, as word positions.
pub struct NodeSpan {
    /// Where the key starts.
    pub key: int,
    /// The number of words of the key, without its terminating zero.
    pub key_len: int,
    /// Where the value starts.
    pub value: int,
    /// The number of words of the value.
    pub value_len: int,
    /// Where the children start.
    pub children: int,
    /// Where the node ends.
    pub end: int,
    /// Where the next sibling starts.
    pub next: int,
}

/// What reading one node gives.
pub enum NodeRead {
    /// The node is malformed; the parser stops at this level.
    Invalid,
    /// The parser panics: the key reaches the last word of the node and has an
    /// odd number of words, so the value would start past the node's end.
    Panics,
    /// A well-formed node.
    Node(NodeSpan),
}

/// Reading the node that starts at `start`, with its siblings up to `end`.
pub open spec fn read_node(words: Seq<u16>, start: int, end: int, unit: ValueLength) -> NodeRead {
    if end - start < 4 {
        NodeRead::Invalid
    } else {
        let length: int = if (words[start] as int) / 2 < 4 {
            4
        } else {
            (words[start] as int) / 2
        };
        let value_len: int = match unit {
            ValueLength::Zero => 0,
            ValueLength::Bytes => (words[start + 1] as int) / 2,
            ValueLength::Words => words[start + 1] as int,
        };
        if (unit is Zero && words[start + 1] != 0) || length > end - start {
            NodeRead::Invalid
        } else {
            let node_end = start + length;
            let key_len: int = zero_free_len(words, start + 3, node_end) as int;
            if key_len == node_end - (start + 3) {
                NodeRead::Invalid
            } else if align2(key_len) + 4 > length {
                NodeRead::Panics
            } else {
                let value = start + align2(key_len) + 4;
                if value_len > node_end - value {
                    NodeRead::Invalid
                } else {
                    NodeRead::Node(
                        NodeSpan {
                            key: start + 3,
                            key_len,
                            value,
                            value_len,
                            children: value + at_most(align2(value_len), node_end - value),
                            end: node_end,
                            next: start + at_most(align2(length), end - start),
                        },
                    )
                }
            }
        }
    }
}

/// A node read lies within what it was read from, after its start, and so
/// do its children; its next sibling starts after it.
pub proof fn lemma_node_within(words: Seq<u16>, start: int, end: int, unit: ValueLength)
    ensures
        read_node(words, start, end, unit) matches NodeRead::Node(n) ==> start < n.children
            <= n.end <= end && start < n.next,
{
}

/// The key `StringFileInfo`.
pub open spec fn string_file_info_key() -> Seq<u16> {
    seq![83u16, 116, 114, 105, 110, 103, 70, 105, 108, 101, 73, 110, 102, 111]
}

/// The key `VarFileInfo`.
pub open spec fn var_file_info_key() -> Seq<u16> {
    seq![86u16, 97, 114, 70, 105, 108, 101, 73, 110, 102, 111]
}

/// Whether the key of node `n` is `key`.
pub open spec fn has_key(words: Seq<u16>, n: NodeSpan, key: Seq<u16>) -> bool {
    words.subrange(n.key, n.key + n.key_len) == key
}

/// Whether the parser reads the nodes of `level` from `start` to `end`, and
/// the children it descends into, without panicking.
pub open spec fn nodes_readable(words: Seq<u16>, start: int, end: int, level: Level) -> bool
    decreases end - start,
{
    if start >= end {
        true
    } else {
        match read_node(words, start, end, level_value_length(level)) {
            NodeRead::Invalid => true,
            NodeRead::Panics => false,
            NodeRead::Node(n) => {
                proof {
                    lemma_node_within(words, start, end, level_value_length(level));
                }
                &&& match level {
                    Level::FileInfo => if has_key(words, n, string_file_info_key()) {
                        nodes_readable(words, n.children, n.end, Level::StringTable)
                    } else if has_key(words, n, var_file_info_key()) {
                        nodes_readable(words, n.children, n.end, Level::Var)
                    } else {
                        true
                    },
                    Level::StringTable => nodes_readable(words, n.children, n.end, Level::String),
                    _ => true,
                }
                &&& nodes_readable(words, n.next, end, level)
            },
        }
    }
}

/// Whether pelite reads the version resource with these words without
/// panicking: only its first node is read, and then its children.
pub open spec fn resource_readable(words: Seq<u16>) -> bool {
    words.len() == 0 || match read_node(words, 0, words.len() as int, ValueLength::Bytes) {
        NodeRead::Invalid => true,
        NodeRead::Panics => false,
        NodeRead::Node(n) => nodes_readable(words, n.children, n.end, Level::FileInfo),
    }
}

/// A node's parts as word positions.
struct Span {
    key: usize,
    key_len: usize,
    value: usize,
    value_len: usize,
    children: usize,
    end: usize,
    next: usize,
}

/// What reading one node gives, with positions.
enum NodeParse {
    Invalid,
    Panics,
    Node(Span),
}

impl NodeParse {
    spec fn read(self) -> NodeRead {
        match self {
            NodeParse::Invalid => NodeRead::Invalid,
            NodeParse::Panics => NodeRead::Panics,
            NodeParse::Node(s) => NodeRead::Node(
                NodeSpan {
                    key: s.key as int,
                    key_len: s.key_len as int,
                    value: s.value as int,
                    value_len: s.value_len as int,
                    children: s.children as int,
                    end: s.end as int,
                    next: s.next as int,
                },
            ),
        }
    }
}

fn value_length_of(level: Level) -> (r: ValueLength)
    ensures
        r == level_value_length(level),
{
    match level {
        Level::FileInfo => ValueLength::Zero,
        Level::StringTable => ValueLength::Zero,
        Level::String => ValueLength::Words,
        Level::Var => ValueLength::Bytes,
    }
}

fn zero_free_len_of(words: &[u16], from: usize, to: usize) -> (r: usize)
    requires
        from <= to <= words@.len(),
    ensures
        r == zero_free_len(words@, from as int, to as int),
        r <= to - from,
{
    let mut i: usize = from;
    while i < to && words[i] != 0
        invariant
            from <= i <= to,
            to <= words@.len(),
            zero_free_len(words@, from as int, to as int) == (i - from) + zero_free_len(
                words@,
                i as int,
                to as int,
            ),
        decreases to - i,
    {
        i = i + 1;
    }
    i - from
}

fn parse_node(words: &[u16], start: usize, end: usize, unit: ValueLength) -> (r: NodeParse)
    requires
        start <= end <= words@.len(),
    ensures
        r.read() == read_node(words@, start as int, end as int, unit),
{
    if end - start < 4 {
        return NodeParse::Invalid;
    }
    let half: usize = words[start] as usize / 2;
    let length: usize = if half < 4 {
        4
    } else {
        half
    };
    let raw: usize = words[start + 1] as usize;
    let value_len: usize = match unit {
        ValueLength::Zero => 0,
        ValueLength::Bytes => raw / 2,
        ValueLength::Words => raw,
    };
    let zero_unit = match unit {
        ValueLength::Zero => true,
        _ => false,
    };
    if (zero_unit && raw != 0) || length > end - start {
        return NodeParse::Invalid;
    }
    let node_end: usize = start + length;
    let key_len = zero_free_len_of(words, start + 3, node_end);
    if key_len == node_end - (start + 3) {
        return NodeParse::Invalid;
    }
    let key_span: usize = key_len + key_len % 2;
    if key_span + 4 > length {
        return NodeParse::Panics;
    }
    let value: usize = start + key_span + 4;
    if value_len > node_end - value {
        return NodeParse::Invalid;
    }
    let value_span: usize = value_len + value_len % 2;
    let children: usize = if value_span <= node_end - value {
        value + value_span
    } else {
        node_end
    };
    let length_span: usize = length + length % 2;
    let next: usize = if length_span <= end - start {
        start + length_span
    } else {
        end
    };
    NodeParse::Node(Span { key: start + 3, key_len, value, value_len, children, end: node_end, next })
}

fn key_is(words: &[u16], key: usize, len: usize, name: &[u16]) -> (r: bool)
    requires
        key + len <= words.len(),
    ensures
        r == (words@.subrange(key as int, key + len) == name@),
{
    if len != name.len() {
        assert(words@.subrange(key as int, key + len).len() != name@.len());
        return false;
    }
    let mut i: usize = 0;
    while i < len
        invariant
            i <= len,
            len == name@.len(),
            key + len <= words.len(),
            forall|j: int| 0 <= j < i ==> words@[key + j] == name@[j],
        decreases len - i,
    {
        if words[key + i] != name[i] {
            assert(words@.subrange(key as int, key + len)[i as int] != name@[i as int]);
            return false;
        }
        i = i + 1;
    }
    assert(words@.subrange(key as int, key + len) =~= name@);
    true
}

fn nodes_readable_at(words: &[u16], start: usize, end: usize, level: Level) -> (r: bool)
    requires
        start <= end <= words@.len(),
    ensures
        r == nodes_readable(words@, start as int, end as int, level),
    decreases end - start,
{
    if start >= end {
        return true;
    }
    match parse_node(words, start, end, value_length_of(level)) {
        NodeParse::Invalid => true,
        NodeParse::Panics => false,
        NodeParse::Node(n) => {
            let inner = match level {
                Level::FileInfo => {
                    let string_file_info: [u16; 14] = [
                        83,
                        116,
                        114,
                        105,
                        110,
                        103,
                        70,
                        105,
                        108,
                        101,
                        73,
                        110,
                        102,
                        111,
                    ];
                    let var_file_info: [u16; 11] = [
                        86,
                        97,
                        114,
                        70,
                        105,
                        108,
                        101,
                        73,
                        110,
                        102,
                        111,
                    ];
                    assert(string_file_info@ == string_file_info_key());
                    assert(var_file_info@ == var_file_info_key());
                    if key_is(words, n.key, n.key_len, string_file_info.as_slice()) {
                        nodes_readable_at(words, n.children, n.end, Level::StringTable)
                    } else if key_is(words, n.key, n.key_len, var_file_info.as_slice()) {
                        nodes_readable_at(words, n.children, n.end, Level::Var)
                    } else {
                        true
                    }
                },
                Level::StringTable => nodes_readable_at(words, n.children, n.end, Level::String),
                _ => true,
            };
            inner && nodes_readable_at(words, n.next, end, level)
        },
    }
}

/// Whether pelite's parser reads the version resource with these words
/// without panicking.
pub fn resource_is_readable(words: &[u16]) -> (r: bool)
    ensures
        r == resource_readable(words@),
{
    if words.len() == 0 {
        return true;
    }
    match parse_node(words, 0, words.len(), ValueLength::Bytes) {
        NodeParse::Invalid => true,
        NodeParse::Panics => false,
        NodeParse::Node(n) => nodes_readable_at(words, n.children, n.end, Level::FileInfo),
    }
}

/// The words of a version resource: each two bytes, the low byte first, make
/// a word (resources are little-endian); an odd last byte is left out.
pub open spec fn resource_words(bytes: Seq<u8>) -> Seq<u16> {
    Seq::new(bytes.len() / 2, |i: int| (bytes[2 * i] + 256 * bytes[2 * i + 1]) as u16)
}

/// The words of a version resource given as its bytes.
pub fn words_of(bytes: &[u8]) -> (r: Vec<u16>)
    ensures
        r@ == resource_words(bytes@),
{
    let n: usize = bytes.len() / 2;
    let mut words: Vec<u16> = Vec::new();
    let mut i: usize = 0;
    while i < n
        invariant
            n == bytes.len() / 2,
            i <= n,
            words@.len() == i,
            forall|j: int| 0 <= j < i ==> words@[j] == resource_words(bytes@)[j],
        decreases n - i,
    {
        assert(2 * i + 1 < bytes.len()) by (nonlinear_arith)
            requires
                i < n,
                n == bytes.len() / 2,
        ;
        let low: u16 = bytes[2 * i] as u16;
        let high: u16 = bytes[2 * i + 1] as u16;
        words.push(low + 256 * high);
        i = i + 1;
    }
    assert(words@ =~= resource_words(bytes@));
    words
}

/// The product version of the fixed file information of a version resource:
/// when the value of its first node is as long as the fixed file information
/// (26 words), its words 8 to 11 (minor, major, build, patch).
pub open spec fn resource_product_version(words: Seq<u16>) -> Option<ProductVersion> {
    match read_node(words, 0, words.len() as int, ValueLength::Bytes) {
        NodeRead::Node(n) => if n.value_len == 26 {
            Some(
                ProductVersion {
                    major: words[n.value + 9],
                    minor: words[n.value + 8],
                    patch: words[n.value + 11],
                    build: words[n.value + 10],
                },
            )
        } else {
            None
        },
        _ => None,
    }
}

/// The languages (language ID, character set ID) listed under `Translation`
/// in the `VarFileInfo` of the version resource with these words, as pelite's
/// `VersionInfo::translation` reads them.
pub uninterp spec fn spec_resource_translations(words: Seq<u16>) -> Seq<(u16, u16)>;

/// The version strings (key, value) of the string table of the given language
/// and character set in the version resource with these words, in the order
/// pelite's `VersionInfo::strings` visits them, each decoded from UTF-16.
pub uninterp spec fn spec_resource_strings(words: Seq<u16>, lang_id: u16, charset_id: u16) -> Seq<
    (Seq<char>, Seq<char>),
>;

/// The bytes of the version resource (type version, name 1, first language)
/// that pelite finds in the mapped PE64 image with these bytes, laid out in
/// memory on an eight-byte boundary; `None` when the bytes hold none.
pub uninterp spec fn spec_image_version_resource(image: Seq<u8>) -> Option<Seq<u8>>;

/// Finds, with pelite's `PeView::from_bytes`, `Pe::resources` and
/// `Resources::find_resource`, the version resource of a mapped PE64 image,
/// and copies it out. pelite refuses structures that do not lie on the
/// boundary their alignment asks for, counted from the image's address, so
/// the image is first copied into memory on an eight-byte boundary: what is
/// found then depends on the image's bytes alone.
#[verifier::external_body]
pub(crate) fn image_version_resource(image: &[u8]) -> (r: Option<Vec<u8>>)
    ensures
        r is Some == spec_image_version_resource(image@) is Some,
        r matches Some(b) ==> spec_image_version_resource(image@) == Some(b@),
{
    let mut aligned: Vec<u64> = image.chunks(8).map(|_| 0u64).collect();
    let copy = &mut dataview::bytes_mut(aligned.as_mut_slice())[..image.len()];
    copy.copy_from_slice(image);
    let resources = PeView::from_bytes(&*copy).ok()?.resources().ok()?;
    Some(resources.find_resource(&[Name::VERSION, Name::Id(1)]).ok()?.to_vec())
}

/// Reads, with pelite's `VersionInfo::try_from` and `VersionInfo::fixed`, the
/// product version of a version resource given as its words, which are first
/// laid out in memory on a four-byte boundary as pelite demands. pelite takes
/// the value of the first node as the fixed file information when it has its
/// size; the product version is its fields `Major`, `Minor`, `Patch` and
/// `Build` at words 9, 8, 11 and 10.
#[verifier::external_body]
fn resource_product_version_of(words: &[u16]) -> (r: Option<ProductVersion>)
    requires
        resource_readable(words@),
    ensures
        r == resource_product_version(words@),
{
    let bytes = dataview::bytes(words);
    let mut aligned = vec![0u32; words.len()];
    let buffer = &mut dataview::bytes_mut(aligned.as_mut_slice())[..bytes.len()];
    buffer.copy_from_slice(bytes);
    let v = VersionInfo::try_from(&*buffer).ok()?.fixed()?.dwProductVersion;
    Some(ProductVersion { major: v.Major, minor: v.Minor, patch: v.Patch, build: v.Build })
}

/// Reads, with pelite's `VersionInfo::try_from` and `VersionInfo::translation`,
/// the languages of a version resource given as its words, laid out on a
/// four-byte boundary first; the result is named.
#[verifier::external_body]
fn resource_translations_of(words: &[u16]) -> (r: Vec<Language>)
    requires
        resource_readable(words@),
    ensures
        language_pairs(r@) == spec_resource_translations(words@),
{
    let bytes = dataview::bytes(words);
    let mut aligned = vec![0u32; words.len()];
    let buffer = &mut dataview::bytes_mut(aligned.as_mut_slice())[..bytes.len()];
    buffer.copy_from_slice(bytes);
    match VersionInfo::try_from(&*buffer) {
        Ok(info) => info.translation().iter().map(
            |l| Language { lang_id: l.lang_id, charset_id: l.charset_id },
        ).collect(),
        Err(_) => Vec::new(),
    }
}

/// Reads, with pelite's `VersionInfo::try_from` and `VersionInfo::strings`, the
/// version strings of one language of a version resource given as its words,
/// laid out on a four-byte boundary first; the result is named.
#[verifier::external_body]
fn resource_strings_of(words: &[u16], language: Language) -> (r: Vec<(String, String)>)
    requires
        resource_readable(words@),
    ensures
        string_pairs(r@) == spec_resource_strings(words@, language.lang_id, language.charset_id),
{
    let bytes = dataview::bytes(words);
    let mut aligned = vec![0u32; words.len()];
    let buffer = &mut dataview::bytes_mut(aligned.as_mut_slice())[..bytes.len()];
    buffer.copy_from_slice(bytes);
    let mut strings = Vec::new();
    let lang = pelite::resources::version_info::Language {
        lang_id: language.lang_id,
        charset_id: language.charset_id,
    };
    if let Ok(info) = VersionInfo::try_from(&*buffer) {
        info.strings(lang, |k, v| strings.push((k.to_string(), v.to_string())));
    }
    strings
}

/// The version strings of the first language of a version resource; empty
/// when it lists no language.
pub open spec fn first_language_strings(words: Seq<u16>) -> Seq<(Seq<char>, Seq<char>)> {
    let languages = spec_resource_translations(words);
    if languages.len() > 0 {
        spec_resource_strings(words, languages[0].0, languages[0].1)
    } else {
        Seq::empty()
    }
}

/// Whether `metadata` is what the version resource with these words holds.
pub open spec fn reads_resource(words: Seq<u16>, metadata: VersionMetadata) -> bool {
    &&& metadata.product_version == resource_product_version(words)
    &&& language_pairs(metadata.translations@) == spec_resource_translations(words)
    &&& string_pairs(metadata.strings@) == first_language_strings(words)
}

/// The verdict on the version resource with these words, for the game whose
/// normalized product name is `name`.
pub open spec fn resource_verdict(name: Seq<char>, words: Seq<u16>) -> MetadataVerdict {
    verdict(
        name,
        resource_product_version(words),
        spec_resource_translations(words),
        first_language_strings(words),
    )
}

/// Reads the version metadata from a version resource given as its words:
/// its product version, its languages and the version strings of the first
/// language. `None` when pelite's parser would panic on the resource.
pub fn read_resource_metadata(words: &[u16]) -> (r: Option<VersionMetadata>)
    ensures
        r is Some == resource_readable(words@),
        r matches Some(m) ==> reads_resource(words@, m),
        r matches Some(m) ==> (m.translations@.len() > 0 ==> string_pairs(m.strings@)
            == spec_resource_strings(
            words@,
            m.translations@[0].lang_id,
            m.translations@[0].charset_id,
        )),
        r matches Some(m) ==> (m.translations@.len() == 0 ==> m.strings@.len() == 0),
{
    if !resource_is_readable(words) {
        return None;
    }
    let translations = resource_translations_of(words);
    let product_version = resource_product_version_of(words);
    let strings = if translations.len() > 0 {
        resource_strings_of(words, translations[0])
    } else {
        Vec::new()
    };
    proof {
        if translations@.len() == 0 {
            assert(string_pairs(strings@) =~= Seq::<(Seq<char>, Seq<char>)>::empty());
        }
    }
    Some(VersionMetadata { product_version, translations, strings })
}

/// Reads the version metadata from the version resource of a mapped PE64
/// image: `None` exactly when no version resource is found in the image or
/// when pelite's parser would panic on the resource.
pub fn read_version_metadata(image: &[u8]) -> (r: Option<VersionMetadata>)
    ensures
        r is Some == (spec_image_version_resource(image@) matches Some(b) && resource_readable(
            resource_words(b),
        )),
        r matches Some(m) ==> (spec_image_version_resource(image@) matches Some(b)
            && reads_resource(resource_words(b), m)),
{
    let resource = match image_version_resource(image) {
        Some(b) => b,
        None => return None,
    };
    let words = words_of(resource.as_slice());
    read_resource_metadata(words.as_slice())
}

/// Reading a resource's metadata and judging it gives the resource's verdict.
pub proof fn lemma_read_metadata_verdict(
    name: Seq<char>,
    words: Seq<u16>,
    metadata: VersionMetadata,
)
    requires
        reads_resource(words, metadata),
    ensures
        crate::game_version::metadata_verdict(name, metadata) == resource_verdict(name, words),
{
}

/// The version strings read are those of the first language that the
/// resource lists; with no language listed, there are none.
pub proof fn lemma_strings_of_first_language(words: Seq<u16>, metadata: VersionMetadata)
    requires
        reads_resource(words, metadata),
    ensures
        spec_resource_translations(words).len() > 0 ==> string_pairs(metadata.strings@)
            == spec_resource_strings(
            words,
            spec_resource_translations(words)[0].0,
            spec_resource_translations(words)[0].1,
        ),
        metadata.translations@.len() > 0 ==> string_pairs(metadata.strings@)
            == spec_resource_strings(
            words,
            metadata.translations@[0].lang_id,
            metadata.translations@[0].charset_id,
        ),
        metadata.translations@.len() == 0 ==> metadata.strings@.len() == 0,
{
    assert(language_pairs(metadata.translations@).len() == metadata.translations@.len());
    if metadata.translations@.len() > 0 {
        assert(language_pairs(metadata.translations@)[0] == (
            metadata.translations@[0].lang_id,
            metadata.translations@[0].charset_id,
        ));
    } else {
        assert(string_pairs(metadata.strings@).len() == metadata.strings@.len());
    }
}

} // verus!
