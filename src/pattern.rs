use vstd::prelude::*;

verus! {

#[verifier::external_type_specification]
#[verifier::external_body]
pub struct ExRegex(regex::Regex);

#[verifier::external_type_specification]
#[verifier::external_body]
pub struct ExRegexError(regex::Error);

/// The successive non-overlapping leftmost matches of the regular expression
/// `pattern` in `text`, each given by the text it matched, in order.
pub uninterp spec fn pattern_matches(pattern: Seq<char>, text: Seq<char>) -> Seq<Seq<char>>;

/// The pattern `re` compiles, under the default settings, into a regular
/// expression.
pub uninterp spec fn regex_compiles(re: Seq<char>) -> bool;

/// Compiling a pattern either gives a regular expression or an error that
/// says why it could not be built; which of the two depends on the pattern
/// alone.
pub assume_specification[ regex::Regex::new ](re: &str) -> (r: Result<regex::Regex, regex::Error>)
    ensures
        r is Ok <==> regex_compiles(re@),
;

/// A regular expression together with the source it was compiled from.
///
/// `new` is the only way to build one, so `regex` always holds the
/// compilation of `source`.
pub struct CompiledPattern {
    source: String,
    regex: regex::Regex,
}

impl View for CompiledPattern {
    type V = Seq<char>;

    closed spec fn view(&self) -> Seq<char> {
        self.source@
    }
}

impl CompiledPattern {
    /// Compiles `source`.
    pub fn new(source: &str) -> (r: Result<CompiledPattern, regex::Error>)
        ensures
            r is Ok <==> regex_compiles(source@),
            r matches Ok(p) ==> p@ == source@,
    {
        match regex::Regex::new(source) {
            Ok(regex) => Ok(CompiledPattern { source: source.to_owned(), regex }),
            Err(e) => Err(e),
        }
    }
}

/// Relies on `regex::Regex::find_iter`, which yields the successive
/// non-overlapping leftmost matches of the pattern in the text, and on
/// `regex::Match::as_str`, which gives the text of each match.
#[verifier::external_body]
pub(crate) fn find_matches(p: &CompiledPattern, text: &str) -> (r: Vec<String>)
    ensures
        r@.map_values(|m: String| m@) == pattern_matches(p@, text@),
{
    p.regex.find_iter(text).map(|m| m.as_str().to_string()).collect()
}

} // verus!
