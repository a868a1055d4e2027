use vstd::prelude::*;

verus! {

/// The lower-cased form of a character sequence, as `str::to_lowercase`
/// computes it. The mapping is involved (full Unicode case conversion), so it
/// is only named here; it depends on the characters alone.
pub uninterp spec fn lower_of(s: Seq<char>) -> Seq<char>;

/// Relies on `str::to_lowercase`: the result depends on the characters alone.
#[verifier::external_body]
pub fn lowercase(s: &str) -> (r: String)
    ensures
        r@ == lower_of(s@),
{
    s.to_lowercase()
}

/// The plural form of a word, as inflector's `to_plural` computes it from its
/// suffix rules. A function of the characters alone, named rather than spelled
/// out.
pub uninterp spec fn plural_of(s: Seq<char>) -> Seq<char>;

/// Relies on `inflector::string::pluralize::to_plural`: the result depends on
/// the characters alone.
#[verifier::external_body]
pub fn pluralize(s: &str) -> (r: String)
    ensures
        r@ == plural_of(s@),
{
    inflector::string::pluralize::to_plural(s)
}

/// The kebab-cased form of a string, as inflector's `to_kebab_case` computes
/// it. A function of the characters alone, named rather than spelled out.
pub uninterp spec fn kebab_of(s: Seq<char>) -> Seq<char>;

/// Relies on `inflector::cases::kebabcase::to_kebab_case`: the result depends
/// on the characters alone.
#[verifier::external_body]
pub fn kebab_case(s: &str) -> (r: String)
    ensures
        r@ == kebab_of(s@),
{
    inflector::cases::kebabcase::to_kebab_case(s)
}

} // verus!
