use vstd::prelude::*;

verus! {

/// Whether `c` is alphanumeric, as `char::is_alphanumeric` decides it from
/// the Unicode tables.
pub uninterp spec fn spec_is_alphanumeric(c: char) -> bool;

/// Whether `c` has the Unicode `White_Space` property: the tab, line feed,
/// line tabulation, form feed and carriage return (U+0009 to U+000D), the
/// space, the next line (U+0085), the no-break space (U+00A0), the Ogham
/// space mark (U+1680), the spaces from U+2000 to U+200A, the line and
/// paragraph separators (U+2028, U+2029), the narrow no-break space
/// (U+202F), the medium mathematical space (U+205F) and the ideographic
/// space (U+3000).
pub open spec fn spec_is_whitespace(c: char) -> bool {
    let n: u32 = c as u32;
    ||| 0x09 <= n <= 0x0D
    ||| n == 0x20
    ||| n == 0x85
    ||| n == 0xA0
    ||| n == 0x1680
    ||| 0x2000 <= n <= 0x200A
    ||| n == 0x2028
    ||| n == 0x2029
    ||| n == 0x202F
    ||| n == 0x205F
    ||| n == 0x3000
}

/// The lowercase equivalent of a string, as `str::to_lowercase` computes it
/// from the Unicode tables.
pub uninterp spec fn spec_to_lowercase(s: Seq<char>) -> Seq<char>;

/// Calls `char::is_alphanumeric`; its result is named, not stated.
#[verifier::external_body]
fn char_is_alphanumeric(c: char) -> (r: bool)
    ensures
        r == spec_is_alphanumeric(c),
{
    c.is_alphanumeric()
}

/// Calls `char::is_whitespace`, which tells whether a character has the
/// Unicode `White_Space` property.
#[verifier::external_body]
fn char_is_whitespace(c: char) -> (r: bool)
    ensures
        r == spec_is_whitespace(c),
{
    c.is_whitespace()
}

/// Calls `str::to_lowercase`; its result is named, not stated.
#[verifier::external_body]
fn str_to_lowercase(s: &str) -> (r: String)
    ensures
        r@ == spec_to_lowercase(s@),
{
    s.to_lowercase()
}

/// Calls `String::push`, which appends one character.
#[verifier::external_body]
pub(crate) fn string_push(s: &mut String, c: char)
    ensures
        final(s)@ == old(s)@.push(c),
{
    s.push(c)
}

/// Whether a product name keeps `c` when it is normalized.
pub open spec fn is_name_char(c: char) -> bool {
    spec_is_alphanumeric(c) || spec_is_whitespace(c)
}

/// The characters of `s` that a normalized product name keeps, in order.
pub open spec fn name_chars(s: Seq<char>) -> Seq<char>
    decreases s.len(),
{
    if s.len() == 0 {
        Seq::empty()
    } else if is_name_char(s.last()) {
        name_chars(s.drop_last()).push(s.last())
    } else {
        name_chars(s.drop_last())
    }
}

/// The normalized form of a product name: its alphanumeric and whitespace
/// characters, in order, in lowercase.
pub open spec fn spec_normalize(product: Seq<char>) -> Seq<char> {
    spec_to_lowercase(name_chars(product))
}

/// Normalizes a product name: drops every character that is neither
/// alphanumeric nor whitespace, then lowercases the rest.
pub fn normalize(product: &str) -> (r: String)
    ensures
        r@ == spec_normalize(product@),
{
    broadcast use vstd::string::group_string_axioms;

    let mut kept = String::new();
    for c in it: product.chars()
        invariant
            it.seq() == product@,
            kept@ == name_chars(product@.take(it.index())),
    {
        proof {
            assert(product@.take(it.index() + 1).drop_last() =~= product@.take(it.index()));
        }
        if char_is_alphanumeric(c) || char_is_whitespace(c) {
            string_push(&mut kept, c);
        }
    }
    proof {
        assert(product@.take(product@.len() as int) =~= product@);
    }
    str_to_lowercase(kept.as_str())
}

/// Keeping the name characters of a string that holds only name characters
/// changes nothing.
pub proof fn lemma_name_chars_idempotent(s: Seq<char>)
    ensures
        name_chars(name_chars(s)) == name_chars(s),
    decreases s.len(),
{
    if s.len() > 0 {
        lemma_name_chars_idempotent(s.drop_last());
        let rest = name_chars(s.drop_last());
        if is_name_char(s.last()) {
            assert(rest.push(s.last()).drop_last() =~= rest);
        }
    }
}

/// Normalizing ignores the characters it drops: a product name and the
/// string of its alphanumeric and whitespace characters normalize alike.
pub proof fn lemma_normalize_ignores_dropped(product: Seq<char>)
    ensures
        spec_normalize(name_chars(product)) == spec_normalize(product),
{
    lemma_name_chars_idempotent(product);
}

/// The characters a normalized product name keeps are exactly those that
/// `char::is_alphanumeric` or `char::is_whitespace` accepts, in their order.
pub proof fn lemma_name_chars_filter(s: Seq<char>)
    ensures
        name_chars(s) == s.filter(|c: char| spec_is_alphanumeric(c) || spec_is_whitespace(c)),
    decreases s.len(),
{
    reveal(Seq::filter);
    if s.len() > 0 {
        lemma_name_chars_filter(s.drop_last());
    }
}

/// A normalized product name is the lowercase form of the characters of the
/// name that are alphanumeric or whitespace, in their order.
pub proof fn lemma_normalize_keeps_alphanumeric_and_whitespace(product: Seq<char>)
    ensures
        spec_normalize(product) == spec_to_lowercase(
            product.filter(|c: char| spec_is_alphanumeric(c) || spec_is_whitespace(c)),
        ),
{
    lemma_name_chars_filter(product);
}

} // verus!
