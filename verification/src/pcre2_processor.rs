use crate::error::BingrepError;
use crate::translit::{
    compiler_outcome, convert_error_message, convert_hex_escapes, convert_hex_strict,
    escape_byte_string, escape_bytes, find_hex_escape, find_metachar, has_metachar, parse_hex,
    parse_hex_tokens, spans_wf,
};
use vstd::prelude::*;

verus! {

#[verifier::external_type_specification]
#[verifier::external_body]
pub struct ExPcre2Regex(pcre2::bytes::Regex);

#[verifier::external_type_specification]
#[verifier::external_body]
pub struct ExPcre2Error(pcre2::Error);

/// A compiled PCRE2 pattern paired with the engine-native pattern text it
/// was compiled from. Only `pcre2_compile` builds one, so the two always
/// belong together.
pub struct Pcre2Matcher {
    re: pcre2::bytes::Regex,
    source: String,
}

/// Whether PCRE2 accepts this pattern text: a function of the text alone,
/// so compiling the same text twice succeeds or fails alike.
pub uninterp spec fn pcre2_accepts(pattern: Seq<char>) -> bool;

/// The spans PCRE2 reports when the pattern compiled from this text runs
/// over this data: a function of the two alone.
pub uninterp spec fn pcre2_matches(pattern: Seq<char>, data: Seq<u8>) -> Seq<(usize, usize)>;

/// Whether a PCRE2 scan of this data with this pattern runs to completion
/// rather than hitting a match-time limit: with the fixed default options
/// this too is a function of the two alone.
pub uninterp spec fn pcre2_scan_ok(pattern: Seq<char>, data: Seq<u8>) -> bool;

impl Pcre2Matcher {
    /// The engine-native pattern text this matcher was compiled from.
    pub closed spec fn pattern(&self) -> Seq<char> {
        self.source@
    }

    /// The engine-native pattern text, as a string.
    pub fn source_text(&self) -> (r: &String)
        ensures
            r@ == self.pattern(),
    {
        &self.source
    }
}

/// Relies on pcre2::bytes::Regex::new: whether it accepts a pattern, and
/// the matcher it then returns, are determined by the pattern text alone.
#[verifier::external_body]
fn pcre2_compile(pattern: &String) -> (r: Result<Pcre2Matcher, pcre2::Error>)
    ensures
        r is Ok <==> pcre2_accepts(pattern@),
        r is Ok ==> r->Ok_0.pattern() == pattern@,
{
    match pcre2::bytes::Regex::new(pattern.as_str()) {
        Ok(re) => Ok(Pcre2Matcher { re, source: pattern.clone() }),
        Err(e) => Err(e),
    }
}

/// Relies on the Display impl of pcre2::Error for the engine's own message.
#[verifier::external_body]
fn pcre2_error_message(e: &pcre2::Error) -> String {
    format!("{}", e)
}

/// Relies on pcre2::bytes::Regex::find_iter with the default options (no
/// JIT, fixed match limits): whether the scan completes, and the spans it
/// then yields — each successive non-overlapping match over the subject,
/// in ascending order of start position — are pure functions of the
/// pattern text and the subject; a failing step is reported instead.
#[verifier::external_body]
fn pcre2_find(m: &Pcre2Matcher, data: &[u8]) -> (r: Result<Vec<(usize, usize)>, pcre2::Error>)
    ensures
        r is Ok <==> pcre2_scan_ok(m.pattern(), data@),
        r is Ok ==> r->Ok_0@ == pcre2_matches(m.pattern(), data@) && spans_wf(
            r->Ok_0@,
            data@.len(),
        ),
{
    let mut v: Vec<(usize, usize)> = Vec::new();
    for mat in m.re.find_iter(data) {
        match mat {
            Ok(mm) => v.push((mm.start(), mm.end())),
            Err(e) => return Err(e),
        }
    }
    Ok(v)
}

/// The pattern compiler backed by the PCRE2 engine. The transliteration
/// is the shared one: both engine backends turn the same pattern text
/// into the same engine-native pattern, or reject it with the same
/// message.
pub struct Pcre2Processor;

impl Pcre2Processor {
    /// Turns a pattern with `\xHH` escapes into a compiled PCRE2 matcher:
    /// literal-byte mode when a `\x` occurs and no regex operator does,
    /// mixed mode otherwise. The transliterated pattern then compiles
    /// exactly when the engine accepts it.
    pub fn compile_pattern(expression: &str) -> (r: Result<Pcre2Matcher, BingrepError>)
        ensures
            compiler_outcome(expression@) is Err <==> (r is Err && r->Err_0 is InvalidPattern),
            r is Err && r->Err_0 is InvalidPattern ==> r->Err_0->InvalidPattern_0@
                == compiler_outcome(expression@)->Err_0,
            r is Ok ==> r->Ok_0.pattern() == compiler_outcome(expression@)->Ok_0,
            compiler_outcome(expression@) is Ok ==> (r is Ok <==> pcre2_accepts(
                compiler_outcome(expression@)->Ok_0,
            )),
            r is Err && !(r->Err_0 is InvalidPattern) ==> r->Err_0 is RegexCompilation,
    {
        let pattern: String = if find_hex_escape(expression) && !find_metachar(expression) {
            let binary = parse_hex_tokens(expression);
            if binary.len() == 0 {
                return Err(
                    BingrepError::InvalidPattern(String::from_str("No valid hex pattern found")),
                );
            }
            escape_byte_string(binary.as_slice())
        } else {
            match convert_hex_escapes(expression) {
                Ok(p) => p,
                Err(e) => {
                    return Err(e);
                },
            }
        };
        match pcre2_compile(&pattern) {
            Ok(m) => Ok(m),
            Err(e) => Err(BingrepError::RegexCompilation(pcre2_error_message(&e))),
        }
    }

    /// The bytes of the pattern's well-formed `\xHH` tokens; all other
    /// characters are silently dropped, so this never fails. The fallible
    /// shape stays for callers that treat both compilers alike.
    pub fn parse_hex_pattern(pattern: &str) -> (r: Result<Vec<u8>, BingrepError>)
        ensures
            r is Ok,
            r->Ok_0@ == parse_hex(pattern@),
    {
        Ok(parse_hex_tokens(pattern))
    }

    /// One engine-native `\xhh` escape per byte; the escaping is the same
    /// whichever engine receives the pattern.
    pub fn escape_bytes_for_regex(bytes: &[u8]) -> (r: String)
        ensures
            r@ == escape_bytes(bytes@),
    {
        escape_byte_string(bytes)
    }

    /// Whether the pattern holds a regex operator, which switches the
    /// compiler to mixed mode.
    pub fn has_regex_metacharacters(pattern: &str) -> (r: bool)
        ensures
            r == has_metachar(pattern@),
    {
        find_metachar(pattern)
    }

    /// Mixed-mode transliteration: rewrites each well-formed `\xHH` token
    /// to canonical lowercase and keeps every other character; a malformed
    /// `\x` escape is an error naming the offending fragment.
    pub fn convert_hex_escapes_in_pattern(pattern: &str) -> (r: Result<String, BingrepError>)
        ensures
            r is Ok <==> convert_hex_strict(pattern@) is Ok,
            r is Ok ==> r->Ok_0@ == convert_hex_strict(pattern@)->Ok_0,
            r is Err ==> r->Err_0 is InvalidPattern && r->Err_0->InvalidPattern_0@
                == convert_error_message(convert_hex_strict(pattern@)->Err_0),
    {
        convert_hex_escapes(pattern)
    }

    /// Every match of the compiled pattern in the data, as `(start, end)`
    /// byte spans in ascending order of start position; succeeds exactly
    /// when the engine's scan of this pattern and data does.
    pub fn find_matches(regex: &Pcre2Matcher, data: &[u8]) -> (r: Result<
        Vec<(usize, usize)>,
        BingrepError,
    >)
        ensures
            r is Ok <==> pcre2_scan_ok(regex.pattern(), data@),
            r is Ok ==> r->Ok_0@ == pcre2_matches(regex.pattern(), data@) && spans_wf(
                r->Ok_0@,
                data@.len(),
            ),
            r is Err ==> r->Err_0 is RegexCompilation,
    {
        match pcre2_find(regex, data) {
            Ok(v) => Ok(v),
            Err(e) => {
                let mut msg = String::from_str("PCRE2 match error: ");
                let detail = pcre2_error_message(&e);
                msg.append(detail.as_str());
                Err(BingrepError::RegexCompilation(msg))
            },
        }
    }
}

} // verus!
