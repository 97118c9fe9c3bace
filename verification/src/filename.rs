//! Canonical file names for downloaded release artifacts.

use crate::text::{char_is_ascii_alphanumeric, char_is_whitespace, chars_of, is_ascii, is_ascii_alphanumeric, is_whitespace};
use unicode_normalization::UnicodeNormalization;
use vstd::prelude::*;

verus! {

/// The canonical decomposition (Unicode Normalization Form D) of a text, as
/// computed by the `unicode-normalization` crate.
pub uninterp spec fn nfd(text: Seq<char>) -> Seq<char>;

/// Calls `UnicodeNormalization::nfd` on `text` and collects the characters it
/// yields. The contract only gives the result its name: the decomposition is a
/// function of the text and of nothing else.
#[verifier::external_body]
fn decompose(text: &str) -> (r: String)
    ensures
        r@ == nfd(text@),
{
    text.nfd().collect()
}

/// Characters that a file name keeps unchanged.
pub open spec fn is_portable(c: char) -> bool {
    is_ascii_alphanumeric(c) || c == '_' || c == '-' || c == '.'
}

/// What becomes of one character of a name: kept, replaced by `_`, or dropped.
pub open spec fn portable_char(c: char) -> Option<char> {
    if is_portable(c) {
        Some(c)
    } else if is_whitespace(c) {
        Some('_')
    } else {
        None
    }
}

/// A text with every character mapped through [`portable_char`].
pub open spec fn sanitized(text: Seq<char>) -> Seq<char> {
    text.filter_map(|c: char| portable_char(c))
}

/// The name before normalization: `{app}_{tag}.apk`.
pub open spec fn raw_release_filename(app_name: Seq<char>, tag_name: Seq<char>) -> Seq<char> {
    app_name + seq!['_'] + tag_name + seq!['.', 'a', 'p', 'k']
}

/// The canonical file name of the release `tag_name` of the application
/// `app_name`.
pub open spec fn release_filename(app_name: Seq<char>, tag_name: Seq<char>) -> Seq<char> {
    sanitized(nfd(raw_release_filename(app_name, tag_name)))
}

/// A sanitized text holds portable characters only, whatever it was made from.
pub proof fn lemma_sanitized_is_portable(text: Seq<char>)
    ensures
        forall|i: int| 0 <= i < sanitized(text).len() ==> is_portable(#[trigger] sanitized(text)[i]),
    decreases text.len(),
{
    if text.len() > 0 {
        let rest = text.drop_last();
        lemma_sanitized_is_portable(rest);
        assert(sanitized(text) == match portable_char(text.last()) {
            Some(c) => sanitized(rest).push(c),
            None => sanitized(rest),
        });
    }
}

/// A canonical file name is plain ASCII and free of whitespace, for every
/// application name and tag.
pub proof fn lemma_release_filename_is_clean(app_name: Seq<char>, tag_name: Seq<char>)
    ensures
        forall|i: int|
            0 <= i < release_filename(app_name, tag_name).len() ==> {
                let c = #[trigger] release_filename(app_name, tag_name)[i];
                is_portable(c) && is_ascii(c) && !is_whitespace(c)
            },
{
    lemma_sanitized_is_portable(nfd(raw_release_filename(app_name, tag_name)));
}

/// Maps every character of `text` through [`portable_char`].
pub fn sanitize(text: &str) -> (r: String)
    ensures
        r@ == sanitized(text@),
{
    let chars = chars_of(text);
    let mut out = String::new();
    let mut i: usize = 0;
    while i < chars.len()
        invariant
            i <= chars.len(),
            chars@ == text@,
            out@ == sanitized(chars@.take(i as int)),
        decreases chars.len() - i,
    {
        let c = chars[i];
        proof {
            chars@.lemma_filter_map_take_succ(|c: char| portable_char(c), i as int);
        }
        if char_is_ascii_alphanumeric(c) || c == '_' || c == '-' || c == '.' {
            out.push(c);
        } else if char_is_whitespace(c) {
            out.push('_');
        }
        i += 1;
    }
    assert(chars@.take(i as int) == chars@);
    out
}

/// The file name under which the artifact of release `tag_name` of the
/// application `app_name` is stored: `{app_name}_{tag_name}.apk`, decomposed
/// and then reduced to portable characters.
pub fn generate_release_filename(app_name: &str, tag_name: &str) -> (r: String)
    ensures
        r@ == release_filename(app_name@, tag_name@),
        forall|i: int| 0 <= i < r@.len() ==> is_ascii(#[trigger] r@[i]) && !is_whitespace(r@[i]),
{
    let mut name = app_name.to_owned();
    name.push('_');
    name.append(tag_name);
    name.push('.');
    name.push('a');
    name.push('p');
    name.push('k');
    assert(name@ == raw_release_filename(app_name@, tag_name@));
    let normalized = decompose(name.as_str());
    proof {
        lemma_release_filename_is_clean(app_name@, tag_name@);
    }
    sanitize(normalized.as_str())
}

} // verus!
