//! The digest primitive: a deterministic, total map from a sequence of
//! words to a fixed-width unsigned integer.
use vstd::prelude::*;

verus! {

/// The digest of a sequence of words, as computed by std's default hasher.
/// Nothing about its value is assumed beyond its being a function of the
/// words alone.
pub uninterp spec fn words_digest(words: Seq<u64>) -> u64;

/// Relies on `BuildHasher::hash_one` over `BuildHasherDefault<DefaultHasher>`:
/// every `DefaultHasher` built through `default` starts from the same fixed
/// keys, so the result depends on the hashed words alone.
#[verifier::external_body]
pub(crate) fn hash_words(words: &Vec<u64>) -> (r: u64)
    ensures
        r == words_digest(words@),
{
    std::hash::BuildHasher::hash_one(
        &std::hash::BuildHasherDefault::<std::collections::hash_map::DefaultHasher>::default(),
        words,
    )
}

} // verus!
