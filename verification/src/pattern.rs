//! The filter for names that are hardware addresses in disguise.
//!
//! A device without a name of its own is announced with its address in the
//! name column, the groups joined by hyphens. Such names are recognised with a
//! regular expression.

use vstd::prelude::*;

verus! {

/// Six groups of two characters, with a hyphen between neighbours and nothing
/// before or after.
pub const ADDRESS_PATTERN: &'static str = "^..-..-..-..-..-..$";

/// Whether the regular expression `pattern`, read as the `regex` crate reads
/// it, has a match somewhere in `haystack`.
pub uninterp spec fn regex_matches(pattern: Seq<char>, haystack: Seq<char>) -> bool;

/// Whether `name` has the shape of a hardware address: seventeen characters,
/// of which the third, sixth, ninth, twelfth and fifteenth are hyphens and
/// none of the others is a line feed.
pub open spec fn address_shaped(name: Seq<char>) -> bool {
    &&& name.len() == 17
    &&& forall|i: int|
        0 <= i < 17 ==> if i % 3 == 2 {
            #[trigger] name[i] == '-'
        } else {
            name[i] != '\n'
        }
}

/// Compiles `pattern` with `regex::Regex::new` and searches `haystack` with
/// `Regex::is_match`.
///
/// Trusted: where an answer comes back, it is whether the pattern has a match
/// in the haystack. Compiling fails for a pattern that is malformed or grows
/// over the crate's size limit, and the result is then `None`; nothing is
/// claimed about when that happens to a pattern other than
/// [`ADDRESS_PATTERN`].
///
/// Of [`ADDRESS_PATTERN`] it is claimed that it compiles, and that it matches
/// exactly the texts that are [`address_shaped`]. By the crate's table of
/// syntax, `^` and `$` stand for the two ends of the haystack, the dot for
/// any one character but the line feed, and the hyphen for itself; the
/// pattern holds nothing else and no repetition.
#[verifier::external_body]
fn regex_is_match(pattern: &str, haystack: &str) -> (found: Option<bool>)
    ensures
        found matches Some(hit) ==> hit == regex_matches(pattern@, haystack@),
        pattern@ == ADDRESS_PATTERN@ ==> found == Some(address_shaped(haystack@)),
{
    match regex::Regex::new(pattern) {
        Ok(compiled) => Some(compiled.is_match(haystack)),
        Err(_) => None,
    }
}

/// Tests `name` against [`ADDRESS_PATTERN`].
pub fn is_address_shaped(name: &str) -> (hit: bool)
    ensures
        hit == address_shaped(name@),
{
    regex_is_match(ADDRESS_PATTERN, name).unwrap()
}

} // verus!
