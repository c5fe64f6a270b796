//! References between the schemas of the interface description.

use vstd::prelude::*;
use vstd::string::*;

verus! {

/// True when `text` starts with `prefix`.
pub open spec fn has_prefix(text: Seq<char>, prefix: Seq<char>) -> bool {
    prefix.len() <= text.len() && text.subrange(0, prefix.len() as int) == prefix
}

/// True when `text` starts with `prefix`.
pub fn starts_with(text: &str, prefix: &str) -> (starts: bool)
    ensures
        starts == has_prefix(text@, prefix@),
{
    let n = prefix.unicode_len();
    if n > text.unicode_len() {
        return false;
    }
    let mut i: usize = 0;
    while i < n
        invariant
            i <= n,
            n == prefix@.len(),
            n <= text@.len(),
            forall|j: int| 0 <= j < i ==> text@[j] == prefix@[j],
        decreases n - i,
    {
        if text.get_char(i) != prefix.get_char(i) {
            assert(text@.subrange(0, n as int)[i as int] != prefix@[i as int]);
            return false;
        }
        i += 1;
    }
    assert(text@.subrange(0, n as int) =~= prefix@);
    true
}

/// The lower case of `c` where `c` is one of the letters `A` to `Z`, and `c` itself where
/// it is not.
pub open spec fn ascii_lower(c: char) -> char {
    if 'A' <= c <= 'Z' {
        ((c as u32) + 32) as char
    } else {
        c
    }
}

/// `text` with each of its characters in ASCII lower case.
pub open spec fn lowered(text: Seq<char>) -> Seq<char> {
    Seq::new(text.len(), |i: int| ascii_lower(text[i]))
}

/// A copy of `text` in ASCII lower case.
///
/// Calls `str::to_ascii_lowercase`. The contract claims what the documentation of that
/// method says: the letters `A` to `Z` become `a` to `z`, and every other character stays
/// as it is.
#[verifier::external_body]
fn ascii_lowercase(text: &str) -> (lower: String)
    ensures
        lower@ == lowered(text@),
{
    text.to_ascii_lowercase()
}

/// `text` with its first `count` characters replaced by `with`.
pub open spec fn with_start(text: Seq<char>, count: int, with: Seq<char>) -> Seq<char> {
    with + text.subrange(count, text.len() as int)
}

/// Where a reference points to after it was made to point outside of the description: a
/// reference to a schema whose name starts with `VAR_` leads to the file of that name in
/// the models, all in lower case, and one to a schema whose name starts with `SHARED_` to
/// the definition of the rest of that name in the shared models. Any other reference stays
/// as it is.
pub open spec fn modified_reference(location: Seq<char>) -> Seq<char> {
    let models = "#/components/schemas/VAR_"@;
    let shared = "#/components/schemas/SHARED_"@;
    let location = if has_prefix(location, models) {
        lowered(with_start(location, models.len() as int, "./models/"@)) + ".json"@
    } else {
        location
    };
    if has_prefix(location, shared) {
        with_start(location, shared.len() as int, "./models/shared.json#/definitions/"@)
    } else {
        location
    }
}

/// `text` with its first `count` characters replaced by `with`.
fn replace_start(text: &str, count: usize, with: &str) -> (replaced: String)
    requires
        count <= text@.len(),
    ensures
        replaced@ == with_start(text@, count as int, with@),
{
    let mut replaced = String::from_str(with);
    replaced.append(text.substring_char(count, text.unicode_len()));
    replaced
}

/// Makes a reference to a schema that is kept outside of the description point there.
pub fn modify_reference(ref_location: &mut String)
    ensures
        final(ref_location)@ == modified_reference(old(ref_location)@),
{
    let models = "#/components/schemas/VAR_";
    let shared = "#/components/schemas/SHARED_";
    if starts_with(ref_location.as_str(), models) {
        let replaced = replace_start(ref_location.as_str(), models.unicode_len(), "./models/");
        let mut lower = ascii_lowercase(replaced.as_str());
        lower.append(".json");
        *ref_location = lower;
    }
    if starts_with(ref_location.as_str(), shared) {
        *ref_location = replace_start(
            ref_location.as_str(),
            shared.unicode_len(),
            "./models/shared.json#/definitions/",
        );
    }
}

} // verus!
