use crate::error::BingrepError;
use crate::translit::{
    compiler_outcome, convert_error_message, convert_hex_escapes, convert_hex_strict,
    escape_byte_string, escape_bytes, find_hex_escape, find_metachar, has_metachar, parse_hex,
    parse_hex_tokens, spans_wf,
};
use vstd::prelude::*;

verus! {

#[verifier::external_type_specification]
#[verifier::external_body]
pub struct ExRegex(regex::bytes::Regex);

#[verifier::external_type_specification]
#[verifier::external_body]
pub struct ExRegexError(regex::Error);

/// A compiled engine pattern paired with the engine-native pattern text it
/// was compiled from. Only `engine_compile` builds one, so the two always
/// belong together.
pub struct Matcher {
    re: regex::bytes::Regex,
    source: String,
}

/// Whether the engine accepts this pattern text: a function of the text
/// alone, so compiling the same text twice succeeds or fails alike.
pub uninterp spec fn engine_accepts(pattern: Seq<char>) -> bool;

/// The spans the engine reports when the pattern compiled from this text
/// runs over this data: a function of the two alone.
pub uninterp spec fn engine_matches(pattern: Seq<char>, data: Seq<u8>) -> Seq<(usize, usize)>;

impl Matcher {
    /// The engine-native pattern text this matcher was compiled from.
    pub closed spec fn pattern(&self) -> Seq<char> {
        self.source@
    }

    /// The engine-native pattern text, as a string.
    pub fn source_text(&self) -> (r: &String)
        ensures
            r@ == self.pattern(),
    {
        &self.source
    }
}

/// Relies on regex::bytes::Regex::new: whether it accepts a pattern, and
/// the matcher it then returns, are determined by the pattern text alone.
#[verifier::external_body]
fn engine_compile(pattern: &String) -> (r: Result<Matcher, regex::Error>)
    ensures
        r is Ok <==> engine_accepts(pattern@),
        r is Ok ==> r->Ok_0.pattern() == pattern@,
{
    match regex::bytes::Regex::new(pattern.as_str()) {
        Ok(re) => Ok(Matcher { re, source: pattern.clone() }),
        Err(e) => Err(e),
    }
}

/// Relies on the Display impl of regex::Error for the engine's own message.
#[verifier::external_body]
fn engine_error_message(e: &regex::Error) -> String {
    format!("{}", e)
}

/// Relies on regex::bytes::Regex::find_iter: it yields each successive
/// non-overlapping match over the haystack, in ascending order of start
/// position, and is a pure function of the pattern text and the haystack.
#[verifier::external_body]
pub(crate) fn engine_find(m: &Matcher, data: &[u8]) -> (r: Vec<(usize, usize)>)
    ensures
        r@ == engine_matches(m.pattern(), data@),
        spans_wf(r@, data@.len()),
{
    let mut v: Vec<(usize, usize)> = Vec::new();
    for mat in m.re.find_iter(data) {
        v.push((mat.start(), mat.end()));
    }
    v
}

/// Matchers compiled from the same engine pattern text behave alike on
/// every input: the engine's matches are a function of the pattern text
/// and the data, so compiling a pattern twice changes nothing.
pub proof fn lemma_matcher_deterministic(m1: &Matcher, m2: &Matcher, data: Seq<u8>)
    requires
        m1.pattern() == m2.pattern(),
    ensures
        engine_matches(m1.pattern(), data) == engine_matches(m2.pattern(), data),
{
}

/// The pattern compiler backed by the `regex` engine. The transliteration
/// is the shared one: both engine backends turn the same pattern text
/// into the same engine-native pattern, or reject it with the same
/// message.
pub struct RegexProcessor;

impl RegexProcessor {
    /// Turns a pattern with `\xHH` escapes into a compiled matcher:
    /// literal-byte mode when a `\x` occurs and no regex operator does,
    /// mixed mode otherwise. The transliterated pattern then compiles
    /// exactly when the engine accepts it.
    pub fn compile_pattern(expression: &str) -> (r: Result<Matcher, BingrepError>)
        ensures
            compiler_outcome(expression@) is Err <==> (r is Err && r->Err_0 is InvalidPattern),
            r is Err && r->Err_0 is InvalidPattern ==> r->Err_0->InvalidPattern_0@
                == compiler_outcome(expression@)->Err_0,
            r is Ok ==> r->Ok_0.pattern() == compiler_outcome(expression@)->Ok_0,
            compiler_outcome(expression@) is Ok ==> (r is Ok <==> engine_accepts(
                compiler_outcome(expression@)->Ok_0,
            )),
            r is Err && !(r->Err_0 is InvalidPattern) ==> r->Err_0 is RegexCompilation,
    {
        let pattern: String = if find_hex_escape(expression) && !find_metachar(expression) {
            let binary = parse_hex_tokens(expression);
            if binary.len() == 0 {
                return Err(
                    BingrepError::InvalidPattern(String::from_str("No valid hex pattern found")),
                );
            }
            escape_byte_string(binary.as_slice())
        } else {
            match convert_hex_escapes(expression) {
                Ok(p) => p,
                Err(e) => {
                    return Err(e);
                },
            }
        };
        match engine_compile(&pattern) {
            Ok(m) => Ok(m),
            Err(e) => Err(BingrepError::RegexCompilation(engine_error_message(&e))),
        }
    }

    /// The bytes of the pattern's well-formed `\xHH` tokens; all other
    /// characters are silently dropped.
    pub fn parse_hex_pattern(pattern: &str) -> (r: Vec<u8>)
        ensures
            r@ == parse_hex(pattern@),
    {
        parse_hex_tokens(pattern)
    }

    /// One engine-native `\xhh` escape per byte, so the engine matches the
    /// byte string literally.
    pub fn escape_bytes_for_regex(bytes: &[u8]) -> (r: String)
        ensures
            r@ == escape_bytes(bytes@),
    {
        escape_byte_string(bytes)
    }

    /// Whether the pattern holds a regex operator, which switches the
    /// compiler to mixed mode.
    pub fn has_regex_metacharacters(pattern: &str) -> (r: bool)
        ensures
            r == has_metachar(pattern@),
    {
        find_metachar(pattern)
    }

    /// Mixed-mode transliteration: rewrites each well-formed `\xHH` token
    /// to canonical lowercase and keeps every other character, so regex
    /// operators survive untouched; a malformed `\x` escape is an error
    /// naming the offending fragment.
    pub fn convert_hex_escapes_in_pattern(pattern: &str) -> (r: Result<String, BingrepError>)
        ensures
            r is Ok <==> convert_hex_strict(pattern@) is Ok,
            r is Ok ==> r->Ok_0@ == convert_hex_strict(pattern@)->Ok_0,
            r is Err ==> r->Err_0 is InvalidPattern && r->Err_0->InvalidPattern_0@
                == convert_error_message(convert_hex_strict(pattern@)->Err_0),
    {
        convert_hex_escapes(pattern)
    }
}

} // verus!
