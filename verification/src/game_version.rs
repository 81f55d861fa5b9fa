use vstd::prelude::*;

use crate::text::{normalize, spec_normalize, string_push};
use crate::version_resource::{
    image_version_resource, read_resource_metadata, resource_is_readable, resource_readable,
    resource_verdict, resource_words, spec_image_version_resource, words_of,
};

verus! {

/// The language ID of English.
pub const LANG_ID_EN: u16 = 0x0009;

/// The language ID of Japanese.
pub const LANG_ID_JP: u16 = 0x0011;

/// Why the version of an executable could not be told.
#[derive(Debug)]
pub enum DetectError {
    /// The executable has no fixed version information.
    MissingVersionMetadata,
    /// The executable's version information names no language.
    MissingLanguageMetadata,
    /// The executable's strings hold no product name.
    MissingProductName,
    /// The executable is another product than the one expected.
    WrongProduct { expected: &'static str, actual: String },
    /// The executable's language is neither English nor Japanese.
    UnsupportedLanguage(u16),
    /// The game does not know this version.
    UnsupportedVersion(String),
}

/// The product version of an executable's fixed version information.
#[derive(Clone, Copy, Debug, PartialEq, Eq, Structural)]
pub struct ProductVersion {
    pub major: u16,
    pub minor: u16,
    pub patch: u16,
    pub build: u16,
}

/// One language (and character set) that an executable's version strings are
/// given in.
#[derive(Clone, Copy, Debug, PartialEq, Eq, Structural)]
pub struct Language {
    pub lang_id: u16,
    pub charset_id: u16,
}

/// What the version check reads from an executable's version resource.
#[derive(Debug)]
pub struct VersionMetadata {
    /// The product version of the fixed version information, if there is any.
    pub product_version: Option<ProductVersion>,
    /// The languages of the version strings, in the order they are listed.
    pub translations: Vec<Language>,
    /// The version strings of the first language, as key and value, in the
    /// order they are listed (empty when there is no language).
    pub strings: Vec<(String, String)>,
}

/// The character of the decimal digit `d`.
pub open spec fn decimal_digit(d: nat) -> char {
    (48 + d) as char
}

/// The decimal digits of `n`, without leading zeros.
pub open spec fn decimal(n: nat) -> Seq<char>
    decreases n,
{
    if n < 10 {
        seq![decimal_digit(n)]
    } else {
        decimal(n / 10).push(decimal_digit(n % 10))
    }
}

/// Writes a number in decimal, without leading zeros.
fn u16_to_decimal(n: u16) -> (r: String)
    ensures
        r@ == decimal(n as nat),
    decreases n,
{
    let digit: char = (48u8 + (n % 10) as u8) as char;
    let mut s = if n < 10 {
        String::new()
    } else {
        u16_to_decimal(n / 10)
    };
    proof {
        broadcast use vstd::string::group_string_axioms;
    }
    string_push(&mut s, digit);
    s
}

/// The version `major.minor.patch.build`, each part in decimal.
pub open spec fn spec_version_string(v: ProductVersion) -> Seq<char> {
    decimal(v.major as nat) + seq!['.'] + decimal(v.minor as nat) + seq!['.'] + decimal(
        v.patch as nat,
    ) + seq!['.'] + decimal(v.build as nat)
}

/// Writes a product version as `major.minor.patch.build`.
pub fn format_version(v: &ProductVersion) -> (r: String)
    ensures
        r@ == spec_version_string(*v),
{
    let mut s = u16_to_decimal(v.major);
    string_push(&mut s, '.');
    s.append(u16_to_decimal(v.minor).as_str());
    string_push(&mut s, '.');
    s.append(u16_to_decimal(v.patch).as_str());
    string_push(&mut s, '.');
    s.append(u16_to_decimal(v.build).as_str());
    s
}

/// The key of the version string that names the product.
pub open spec fn product_name_key() -> Seq<char> {
    "ProductName"@
}

/// The version strings as pairs of key and value.
pub open spec fn string_pairs(strings: Seq<(String, String)>) -> Seq<(Seq<char>, Seq<char>)> {
    strings.map_values(|p: (String, String)| (p.0@, p.1@))
}

/// The languages as pairs of language ID and character set ID.
pub open spec fn language_pairs(languages: Seq<Language>) -> Seq<(u16, u16)> {
    languages.map_values(|l: Language| (l.lang_id, l.charset_id))
}

/// The value of the last version string whose key is `ProductName`, if any.
pub open spec fn spec_product_name(strings: Seq<(Seq<char>, Seq<char>)>) -> Option<Seq<char>>
    decreases strings.len(),
{
    if strings.len() == 0 {
        None
    } else if strings.last().0 == product_name_key() {
        Some(strings.last().1)
    } else {
        spec_product_name(strings.drop_last())
    }
}

/// The product name among the version strings: the value of the last string
/// whose key is `ProductName`.
pub fn product_name(strings: &Vec<(String, String)>) -> (r: Option<String>)
    ensures
        r is Some == spec_product_name(string_pairs(strings@)) is Some,
        r matches Some(name) ==> spec_product_name(string_pairs(strings@)) == Some(name@),
{
    broadcast use vstd::string::group_string_axioms;

    let key = "ProductName".to_string();
    let ghost pairs = string_pairs(strings@);
    let mut found: Option<String> = None;
    let mut i: usize = 0;
    while i < strings.len()
        invariant
            i <= strings@.len(),
            pairs == string_pairs(strings@),
            key@ == product_name_key(),
            found is Some == spec_product_name(pairs.take(i as int)) is Some,
            found matches Some(name) ==> spec_product_name(pairs.take(i as int)) == Some(name@),
        decreases strings@.len() - i,
    {
        assert(pairs.take(i + 1).drop_last() =~= pairs.take(i as int));
        assert(pairs.take(i + 1).last() == (strings@[i as int].0@, strings@[i as int].1@));
        if strings[i].0 == key {
            found = Some(strings[i].1.clone());
        }
        i = i + 1;
    }
    assert(pairs.take(strings@.len() as int) =~= pairs);
    found
}

/// The language ID of a language, without its sublanguage bits.
pub open spec fn primary_lang_id(lang_id: u16) -> u16 {
    lang_id & 0x03FF
}

/// Whether the games are released in the language with this ID.
pub open spec fn is_supported_lang_id(lang_id: u16) -> bool {
    lang_id == LANG_ID_EN || lang_id == LANG_ID_JP
}

/// What the checks of a version detection make of an executable's metadata.
pub enum MetadataVerdict {
    MissingVersionMetadata,
    MissingLanguageMetadata,
    MissingProductName,
    /// The product is another one; its name as the executable gives it.
    WrongProduct(Seq<char>),
    /// The language is not supported; its primary language ID.
    UnsupportedLanguage(u16),
    /// Every check passed: the primary language ID and the version string.
    Accepted(u16, Seq<char>),
}

/// The verdict on version metadata read from the executable of a game whose
/// normalized product name is `name`: the product version, the languages (as
/// language and character set IDs) and the version strings of the first
/// language. It is the first check that fails, in the order version,
/// language, product name, product, language ID; when none fails, the
/// language ID and the version string.
pub open spec fn verdict(
    name: Seq<char>,
    product_version: Option<ProductVersion>,
    translations: Seq<(u16, u16)>,
    strings: Seq<(Seq<char>, Seq<char>)>,
) -> MetadataVerdict {
    match product_version {
        None => MetadataVerdict::MissingVersionMetadata,
        Some(version) => if translations.len() == 0 {
            MetadataVerdict::MissingLanguageMetadata
        } else {
            match spec_product_name(strings) {
                None => MetadataVerdict::MissingProductName,
                Some(product) => if spec_normalize(product) != name {
                    MetadataVerdict::WrongProduct(product)
                } else {
                    let lang_id = primary_lang_id(translations[0].0);
                    if !is_supported_lang_id(lang_id) {
                        MetadataVerdict::UnsupportedLanguage(lang_id)
                    } else {
                        MetadataVerdict::Accepted(lang_id, spec_version_string(version))
                    }
                },
            }
        },
    }
}

/// The verdict on `metadata` for the game whose normalized product name is
/// `name`.
pub open spec fn metadata_verdict(name: Seq<char>, metadata: VersionMetadata) -> MetadataVerdict {
    verdict(
        name,
        metadata.product_version,
        language_pairs(metadata.translations@),
        string_pairs(metadata.strings@),
    )
}

/// Whether `error` is the error that a failed verdict calls for, for the game
/// whose normalized product name is `name`.
pub open spec fn reports(verdict: MetadataVerdict, name: &'static str, error: DetectError) -> bool {
    match verdict {
        MetadataVerdict::MissingVersionMetadata => error is MissingVersionMetadata,
        MetadataVerdict::MissingLanguageMetadata => error is MissingLanguageMetadata,
        MetadataVerdict::MissingProductName => error is MissingProductName,
        MetadataVerdict::WrongProduct(product) => (error matches DetectError::WrongProduct {
            expected,
            actual,
        } && expected == name && actual@ == product),
        MetadataVerdict::UnsupportedLanguage(lang_id) => (error matches DetectError::UnsupportedLanguage(
            id,
        ) && id == lang_id),
        MetadataVerdict::Accepted(_, _) => false,
    }
}

/// Checks the version metadata of an executable against the game whose
/// normalized product name is `name`, and gives the language ID and the
/// version string by which the game tells its version.
pub fn check_version_metadata(name: &'static str, metadata: &VersionMetadata) -> (r: Result<
    (u16, String),
    DetectError,
>)
    ensures
        match metadata_verdict(name@, *metadata) {
            MetadataVerdict::Accepted(lang_id, version) => (r matches Ok((id, text)) && id == lang_id
                && text@ == version),
            verdict => (r matches Err(e) && reports(verdict, name, e)),
        },
        r matches Ok((id, _)) ==> id == metadata.translations@[0].lang_id % 1024,
        r matches Err(DetectError::UnsupportedLanguage(id)) ==> id
            == metadata.translations@[0].lang_id % 1024,
{
    broadcast use vstd::string::group_string_axioms;

    let product_version = match metadata.product_version {
        Some(v) => v,
        None => return Err(DetectError::MissingVersionMetadata),
    };
    let version = format_version(&product_version);
    if metadata.translations.len() == 0 {
        return Err(DetectError::MissingLanguageMetadata);
    }
    let language = metadata.translations[0];
    let product = match product_name(&metadata.strings) {
        Some(p) => p,
        None => return Err(DetectError::MissingProductName),
    };
    if normalize(product.as_str()) != name.to_string() {
        return Err(DetectError::WrongProduct { expected: name, actual: product });
    }
    let lang_id = language.lang_id & 0x03FF;
    proof {
        lemma_primary_lang_id(language.lang_id);
    }
    if lang_id != LANG_ID_EN && lang_id != LANG_ID_JP {
        return Err(DetectError::UnsupportedLanguage(lang_id));
    }
    Ok((lang_id, version))
}

/// The result of a detection whose checks passed: the game's version found
/// for the language ID and version string, or the error that the version is
/// not supported.
pub fn select_version<T>(found: Option<T>, version: String) -> (r: Result<T, DetectError>)
    ensures
        found matches Some(v) ==> r == Ok::<T, DetectError>(v),
        found is None ==> (r matches Err(DetectError::UnsupportedVersion(text)) && text@ == version@),
{
    match found {
        Some(v) => Ok(v),
        None => Err(DetectError::UnsupportedVersion(version)),
    }
}

/// What a detection owes for a verdict, for the game whose normalized
/// product name is `name` and whose versions are found as `answers` relates
/// a language ID and a version string to a found version: the error the
/// verdict calls for when a check failed; when every check passed, the found
/// version for the checked language ID and version string (a string with
/// those characters), or, when none is found, the error that the version is
/// not supported.
pub open spec fn detected<T>(
    verdict: MetadataVerdict,
    name: &'static str,
    answers: spec_fn(u16, &str, Option<T>) -> bool,
    r: Result<T, DetectError>,
) -> bool {
    match verdict {
        MetadataVerdict::Accepted(lang_id, version) => exists|text: &str, found: Option<T>|
            {
                &&& text@ == version
                &&& #[trigger] answers(lang_id, text, found)
                &&& found matches Some(v) ==> r == Ok::<T, DetectError>(v)
                &&& found is None ==> (r matches Err(DetectError::UnsupportedVersion(t)) && t@
                    == version)
            },
        verdict => (r matches Err(e) && reports(verdict, name, e)),
    }
}

/// The language ID that is checked is the primary language ID: the low ten
/// bits of the language ID, without the sublanguage.
pub proof fn lemma_primary_lang_id(lang_id: u16)
    ensures
        primary_lang_id(lang_id) == lang_id % 1024,
{
    assert(lang_id & 0x03FF == lang_id % 1024) by (bit_vector);
}

/// When the executable has a product version, lists a language and names the
/// expected product, the verdict turns on the primary ID (the low ten bits)
/// of the first language: English and Japanese, whatever their sublanguage,
/// are accepted with that ID and the version written as
/// `major.minor.patch.build`; any other language is refused with that ID.
pub proof fn lemma_verdict_language(
    name: Seq<char>,
    version: ProductVersion,
    translations: Seq<(u16, u16)>,
    strings: Seq<(Seq<char>, Seq<char>)>,
    product: Seq<char>,
)
    requires
        translations.len() > 0,
        spec_product_name(strings) == Some(product),
        spec_normalize(product) == name,
    ensures
        translations[0].0 % 1024 == 9 || translations[0].0 % 1024 == 17 ==> verdict(
            name,
            Some(version),
            translations,
            strings,
        ) == MetadataVerdict::Accepted(
            (translations[0].0 % 1024) as u16,
            spec_version_string(version),
        ),
        !(translations[0].0 % 1024 == 9 || translations[0].0 % 1024 == 17) ==> verdict(
            name,
            Some(version),
            translations,
            strings,
        ) == MetadataVerdict::UnsupportedLanguage((translations[0].0 % 1024) as u16),
{
    lemma_primary_lang_id(translations[0].0);
}

/// A version is found by asking the game with the executable's own primary
/// language ID and version string: when the game answers as a function `f`
/// of language ID and version string, an accepted verdict gives `f`'s version
/// for the verdict's language ID and version string, or, when `f` has none,
/// the error that this version string is not supported.
pub proof fn lemma_detected_asks_executable_language<T>(
    lang_id: u16,
    version: Seq<char>,
    name: &'static str,
    answers: spec_fn(u16, &str, Option<T>) -> bool,
    f: spec_fn(u16, Seq<char>) -> Option<T>,
    r: Result<T, DetectError>,
)
    requires
        forall|l: u16, t: &str, o: Option<T>| #[trigger] answers(l, t, o) ==> o == f(l, t@),
        detected(MetadataVerdict::Accepted(lang_id, version), name, answers, r),
    ensures
        f(lang_id, version) matches Some(v) ==> r == Ok::<T, DetectError>(v),
        f(lang_id, version) is None ==> (r matches Err(DetectError::UnsupportedVersion(t)) && t@
            == version),
{
}

/// A refused language is reported with its primary language ID, whatever the
/// game's versions.
pub proof fn lemma_detected_unsupported_language<T>(
    lang_id: u16,
    name: &'static str,
    answers: spec_fn(u16, &str, Option<T>) -> bool,
    r: Result<T, DetectError>,
)
    requires
        detected(MetadataVerdict::UnsupportedLanguage(lang_id), name, answers, r),
    ensures
        r matches Err(DetectError::UnsupportedLanguage(id)) && id == lang_id,
{
}

/// A game whose executable tells its version by language and version string.
pub trait GameVersion: Sized {
    /// The normalized product name of the game's executable.
    const NAME: &'static str;

    /// The game's version for a language ID and a version string, if the game
    /// knows it.
    fn from_lang_version(lang_id: u16, version: &str) -> Option<Self>;

    /// Tells the game's version from the version metadata of its executable.
    fn detect_metadata(metadata: &VersionMetadata) -> (r: Result<Self, DetectError>)
        ensures
            detected(
                metadata_verdict(Self::NAME@, *metadata),
                Self::NAME,
                |l: u16, t: &str, o: Option<Self>| call_ensures(Self::from_lang_version, (l, t), o),
                r,
            ),
    {
        let (lang_id, version) = check_version_metadata(Self::NAME, metadata)?;
        let found = {
            let text = version.as_str();
            let answer = Self::from_lang_version(lang_id, text);
            proof {
                let answers = |l: u16, t: &str, o: Option<Self>|
                    call_ensures(Self::from_lang_version, (l, t), o);
                assert(answers(lang_id, text, answer));
            }
            answer
        };
        let r = select_version(found, version);
        r
    }

    /// Tells the game's version from the version resource of its executable,
    /// given as the resource's bytes, which pelite's parser reads without
    /// panicking.
    fn detect(resource: &[u8]) -> (r: Result<Self, DetectError>)
        requires
            resource_readable(resource_words(resource@)),
        ensures
            detected(
                resource_verdict(Self::NAME@, resource_words(resource@)),
                Self::NAME,
                |l: u16, t: &str, o: Option<Self>| call_ensures(Self::from_lang_version, (l, t), o),
                r,
            ),
    {
        let words = words_of(resource);
        let metadata = read_resource_metadata(words.as_slice()).unwrap();
        Self::detect_metadata(&metadata)
    }

    /// Tells the game's version from its executable, mapped in memory as
    /// `image`: `None` exactly when no version resource is found in the image
    /// or when pelite's parser would panic on the resource.
    fn try_detect(image: &[u8]) -> (r: Option<Result<Self, DetectError>>)
        ensures
            r is Some == (spec_image_version_resource(image@) matches Some(b) && resource_readable(
                resource_words(b),
            )),
            r matches Some(res) ==> (spec_image_version_resource(image@) matches Some(b)
                && detected(
                resource_verdict(Self::NAME@, resource_words(b)),
                Self::NAME,
                |l: u16, t: &str, o: Option<Self>| call_ensures(Self::from_lang_version, (l, t), o),
                res,
            )),
    {
        let resource = match image_version_resource(image) {
            Some(b) => b,
            None => return None,
        };
        let words = words_of(resource.as_slice());
        if !resource_is_readable(words.as_slice()) {
            return None;
        }
        Some(Self::detect(resource.as_slice()))
    }
}

} // verus!
