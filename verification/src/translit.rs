use crate::error::BingrepError;
use crate::output::{chars_to_string, lower_hex_char, lower_hex_digit, str_to_chars};
use vstd::prelude::*;

verus! {

/// An ASCII hex digit, either case.
pub open spec fn is_hex_digit_char(c: char) -> bool {
    (48 <= c as int && c as int <= 57)  // '0' ..= '9'
     || (97 <= c as int && c as int <= 102)  // 'a' ..= 'f'
     || (65 <= c as int && c as int <= 70)  // 'A' ..= 'F'

}

/// The value of a hex digit char.
pub open spec fn hex_val(c: char) -> nat {
    if 48 <= c as int && c as int <= 57 {
        (c as int - 48) as nat
    } else if 97 <= c as int && c as int <= 102 {
        (c as int - 87) as nat
    } else if 65 <= c as int && c as int <= 70 {
        (c as int - 55) as nat
    } else {
        0
    }
}

/// The byte written by two hex digit chars.
pub open spec fn hex_byte(h1: char, h2: char) -> u8 {
    (hex_val(h1) * 16 + hex_val(h2)) as u8
}

/// A regex operator that switches pattern compilation to mixed mode.
pub open spec fn is_metachar(c: char) -> bool {
    c == '+' || c == '*' || c == '?' || c == '(' || c == ')' || c == '[' || c == ']' || c == '{'
        || c == '}' || c == '|' || c == '^' || c == '$'
}

/// Some regex operator occurs in the pattern text.
pub open spec fn has_metachar(s: Seq<char>) -> bool {
    exists|i: int| 0 <= i < s.len() && is_metachar(s[i])
}

/// A backslash directly followed by a lowercase `x` occurs somewhere.
pub open spec fn contains_hex_escape(s: Seq<char>) -> bool {
    exists|i: int| 0 <= i && i + 1 < s.len() && (#[trigger] s[i]) == '\\' && s[i + 1] == 'x'
}

/// Literal-byte mode: a `\x` escape is present and no regex operator is.
pub open spec fn literal_mode(s: Seq<char>) -> bool {
    contains_hex_escape(s) && !has_metachar(s)
}

/// The bytes written by the `\xHH` tokens of the text, every other
/// character silently dropped. A `\x`/`\X` not followed by two hex digits
/// consumes up to two further characters and yields nothing.
pub open spec fn parse_hex(s: Seq<char>) -> Seq<u8>
    decreases s.len(),
{
    if s.len() == 0 {
        Seq::empty()
    } else if s[0] == '\\' && s.len() >= 2 && (s[1] == 'x' || s[1] == 'X') {
        if s.len() >= 4 && is_hex_digit_char(s[2]) && is_hex_digit_char(s[3]) {
            seq![hex_byte(s[2], s[3])] + parse_hex(s.skip(4))
        } else if s.len() >= 4 {
            parse_hex(s.skip(4))
        } else {
            Seq::empty()
        }
    } else {
        parse_hex(s.skip(1))
    }
}

/// What is wrong with a malformed `\x` escape: two non-hex characters,
/// only one character before the end, or none at all.
pub enum HexTokenError {
    Invalid(char, char),
    MissingOne(char),
    MissingBoth,
}

/// One engine-native escape, `\x` and two lowercase digits, per byte.
pub open spec fn escape_bytes(bytes: Seq<u8>) -> Seq<char>
    decreases bytes.len(),
{
    if bytes.len() == 0 {
        Seq::empty()
    } else {
        seq![
            '\\',
            'x',
            lower_hex_digit(bytes[0] as nat / 16),
            lower_hex_digit(bytes[0] as nat % 16),
        ] + escape_bytes(bytes.skip(1))
    }
}

/// Mixed-mode transliteration: every well-formed `\xHH`/`\XHH` token is
/// rewritten to canonical lowercase `\xhh`, every other character passes
/// through unchanged, and a malformed `\x`/`\X` escape is an error.
pub open spec fn convert_hex_strict(s: Seq<char>) -> Result<Seq<char>, HexTokenError>
    decreases s.len(),
{
    if s.len() == 0 {
        Ok(Seq::empty())
    } else if s[0] == '\\' && s.len() >= 2 && (s[1] == 'x' || s[1] == 'X') {
        if s.len() == 2 {
            Err(HexTokenError::MissingBoth)
        } else if s.len() == 3 {
            Err(HexTokenError::MissingOne(s[2]))
        } else if is_hex_digit_char(s[2]) && is_hex_digit_char(s[3]) {
            match convert_hex_strict(s.skip(4)) {
                Ok(rest) => Ok(
                    seq![
                        '\\',
                        'x',
                        lower_hex_digit(hex_byte(s[2], s[3]) as nat / 16),
                        lower_hex_digit(hex_byte(s[2], s[3]) as nat % 16),
                    ] + rest,
                ),
                Err(e) => Err(e),
            }
        } else {
            Err(HexTokenError::Invalid(s[2], s[3]))
        }
    } else {
        match convert_hex_strict(s.skip(1)) {
            Ok(rest) => Ok(seq![s[0]] + rest),
            Err(e) => Err(e),
        }
    }
}

/// The message a malformed escape in mixed mode is rejected with: it
/// names the offending fragment.
pub open spec fn convert_error_message(e: HexTokenError) -> Seq<char> {
    match e {
        HexTokenError::Invalid(h1, h2) => "Invalid hex sequence in regex pattern: \\x"@ + seq![
            h1,
            h2,
        ],
        HexTokenError::MissingOne(h1) => "Incomplete hex sequence in regex pattern: \\x"@ + seq![
            h1,
        ],
        HexTokenError::MissingBoth => "Incomplete hex sequence in regex pattern: \\x"@,
    }
}

/// What the pattern compiler hands the engine for this pattern text, or
/// the message it rejects the text with. Both engines share this one
/// transliteration: literal-byte mode drops everything outside a
/// well-formed token and fails only when nothing is left; mixed mode
/// rejects a malformed escape, naming it.
pub open spec fn compiler_outcome(s: Seq<char>) -> Result<Seq<char>, Seq<char>> {
    if literal_mode(s) {
        if parse_hex(s).len() == 0 {
            Err("No valid hex pattern found"@)
        } else {
            Ok(escape_bytes(parse_hex(s)))
        }
    } else {
        match convert_hex_strict(s) {
            Ok(p) => Ok(p),
            Err(e) => Err(convert_error_message(e)),
        }
    }
}

/// Match spans as an engine reports them over one haystack: each within
/// the haystack, successive spans non-overlapping and in ascending order
/// of start position.
pub open spec fn spans_wf(spans: Seq<(usize, usize)>, len: nat) -> bool {
    (forall|i: int|
        0 <= i < spans.len() ==> (#[trigger] spans[i]).0 <= spans[i].1 && spans[i].1 <= len)
        && (forall|i: int|
        0 < i < spans.len() ==> (#[trigger] spans[i]).0 > spans[i - 1].0 && spans[i - 1].1
            <= spans[i].0)
}

/// A hex digit char written for a value below 16 reads back as that value.
proof fn lemma_lower_hex_digit(n: nat)
    requires
        n < 16,
    ensures
        is_hex_digit_char(lower_hex_digit(n)),
        hex_val(lower_hex_digit(n)) == n,
{
}

/// Decoding inverts encoding: the hex-token parser recovers exactly the
/// byte sequence that the literal-mode re-escaping wrote.
pub proof fn lemma_escape_parse_round_trip(bytes: Seq<u8>)
    ensures
        parse_hex(escape_bytes(bytes)) == bytes,
    decreases bytes.len(),
{
    if bytes.len() == 0 {
        assert(parse_hex(escape_bytes(bytes)) =~= bytes);
    } else {
        let b = bytes[0];
        let s = escape_bytes(bytes);
        lemma_lower_hex_digit(b as nat / 16);
        lemma_lower_hex_digit(b as nat % 16);
        assert(s.skip(4) =~= escape_bytes(bytes.skip(1)));
        lemma_escape_parse_round_trip(bytes.skip(1));
        assert(hex_byte(s[2], s[3]) == b);
        assert(parse_hex(s) =~= bytes);
    }
}

/// Whether the char is an ASCII hex digit.
pub(crate) fn is_hex_digit(c: char) -> (r: bool)
    ensures
        r == is_hex_digit_char(c),
{
    let u = c as u32;
    (48 <= u && u <= 57) || (97 <= u && u <= 102) || (65 <= u && u <= 70)
}

/// The byte written by two hex digit chars.
pub(crate) fn hex_byte_of(h1: char, h2: char) -> (r: u8)
    requires
        is_hex_digit_char(h1),
        is_hex_digit_char(h2),
    ensures
        r == hex_byte(h1, h2),
{
    hex_val_of(h1) * 16 + hex_val_of(h2)
}

/// The value of an ASCII hex digit char.
pub(crate) fn hex_val_of(c: char) -> (r: u8)
    requires
        is_hex_digit_char(c),
    ensures
        r as nat == hex_val(c),
        r < 16,
{
    let u = c as u32;
    if 48 <= u && u <= 57 {
        (u - 48) as u8
    } else if 97 <= u && u <= 102 {
        (u - 87) as u8
    } else {
        (u - 55) as u8
    }
}

/// The bytes of the pattern's well-formed `\xHH` tokens; all other
/// characters are silently dropped.
pub(crate) fn parse_hex_tokens(pattern: &str) -> (r: Vec<u8>)
    ensures
        r@ == parse_hex(pattern@),
{
    let cs = str_to_chars(pattern);
    let n = cs.len();
    let mut out: Vec<u8> = Vec::new();
    let mut i: usize = 0;
    proof {
        assert(cs@.skip(0) =~= cs@);
        assert(out@ + parse_hex(cs@) =~= parse_hex(cs@));
    }
    while i < n
        invariant
            i <= n,
            n == cs@.len(),
            cs@ == pattern@,
            parse_hex(cs@) == out@ + parse_hex(cs@.skip(i as int)),
        decreases n - i,
    {
        let ghost s = cs@.skip(i as int);
        if cs[i] == '\\' && i + 1 < n && (cs[i + 1] == 'x' || cs[i + 1] == 'X') {
            if n - i >= 4 && is_hex_digit(cs[i + 2]) && is_hex_digit(cs[i + 3]) {
                let b = hex_byte_of(cs[i + 2], cs[i + 3]);
                proof {
                    assert(s.skip(4) =~= cs@.skip(i + 4));
                    assert(out@.push(b) + parse_hex(cs@.skip(i + 4)) =~= out@ + parse_hex(s));
                }
                out.push(b);
                i += 4;
            } else if n - i >= 4 {
                proof {
                    assert(s.skip(4) =~= cs@.skip(i + 4));
                }
                i += 4;
            } else {
                proof {
                    assert(parse_hex(s) =~= Seq::<u8>::empty());
                    assert(cs@.skip(n as int) =~= Seq::<char>::empty());
                }
                i = n;
            }
        } else {
            proof {
                assert(s.skip(1) =~= cs@.skip(i + 1));
            }
            i += 1;
        }
    }
    proof {
        assert(cs@.skip(n as int) =~= Seq::<char>::empty());
        assert(out@ =~= parse_hex(cs@));
    }
    out
}

/// One engine-native `\xhh` escape per byte, so the engine matches the
/// byte string literally.
pub(crate) fn escape_byte_string(bytes: &[u8]) -> (r: String)
    ensures
        r@ == escape_bytes(bytes@),
{
    let n = bytes.len();
    let mut acc: Vec<char> = Vec::new();
    let mut i: usize = 0;
    proof {
        assert(bytes@.skip(0) =~= bytes@);
        assert(acc@ + escape_bytes(bytes@) =~= escape_bytes(bytes@));
    }
    while i < n
        invariant
            i <= n,
            n == bytes@.len(),
            escape_bytes(bytes@) == acc@ + escape_bytes(bytes@.skip(i as int)),
        decreases n - i,
    {
        let ghost s = bytes@.skip(i as int);
        let b = bytes[i];
        acc.push('\\');
        acc.push('x');
        acc.push(lower_hex_char(b / 16));
        acc.push(lower_hex_char(b % 16));
        proof {
            assert(s.skip(1) =~= bytes@.skip(i + 1));
            assert(acc@ + escape_bytes(bytes@.skip(i + 1)) =~= escape_bytes(bytes@));
        }
        i += 1;
    }
    proof {
        assert(bytes@.skip(n as int) =~= Seq::<u8>::empty());
        assert(acc@ =~= escape_bytes(bytes@));
    }
    chars_to_string(&acc)
}

/// Whether the pattern holds a regex operator.
pub(crate) fn find_metachar(pattern: &str) -> (r: bool)
    ensures
        r == has_metachar(pattern@),
{
    let cs = str_to_chars(pattern);
    let n = cs.len();
    let mut i: usize = 0;
    while i < n
        invariant
            i <= n,
            n == cs@.len(),
            cs@ == pattern@,
            forall|j: int| 0 <= j < i ==> !is_metachar(cs@[j]),
        decreases n - i,
    {
        let c = cs[i];
        if c == '+' || c == '*' || c == '?' || c == '(' || c == ')' || c == '[' || c == ']' || c
            == '{' || c == '}' || c == '|' || c == '^' || c == '$' {
            return true;
        }
        i += 1;
    }
    false
}

/// Whether a `\x` escape occurs in the pattern text.
pub(crate) fn find_hex_escape(pattern: &str) -> (r: bool)
    ensures
        r == contains_hex_escape(pattern@),
{
    let cs = str_to_chars(pattern);
    let n = cs.len();
    let mut i: usize = 0;
    if n == 0 {
        return false;
    }
    while i + 1 < n
        invariant
            i < n,
            n == cs@.len(),
            cs@ == pattern@,
            forall|j: int| 0 <= j < i ==> !((#[trigger] cs@[j]) == '\\' && cs@[j + 1] == 'x'),
        decreases n - i,
    {
        if cs[i] == '\\' && cs[i + 1] == 'x' {
            return true;
        }
        i += 1;
    }
    false
}

/// Mixed-mode transliteration, shared by both engines: rewrites each
/// well-formed `\xHH` token to canonical lowercase, keeps every other
/// character, and rejects a malformed `\x` escape with a message naming
/// the offending fragment.
pub(crate) fn convert_hex_escapes(pattern: &str) -> (r: Result<String, BingrepError>)
    ensures
        r is Ok <==> convert_hex_strict(pattern@) is Ok,
        r is Ok ==> r->Ok_0@ == convert_hex_strict(pattern@)->Ok_0,
        r is Err ==> r->Err_0 is InvalidPattern && r->Err_0->InvalidPattern_0@
            == convert_error_message(convert_hex_strict(pattern@)->Err_0),
{
    let cs = str_to_chars(pattern);
    let n = cs.len();
    let mut acc: Vec<char> = Vec::new();
    let mut i: usize = 0;
    proof {
        assert(cs@.skip(0) =~= cs@);
        if convert_hex_strict(cs@) is Ok {
            assert(acc@ + convert_hex_strict(cs@)->Ok_0 =~= convert_hex_strict(cs@)->Ok_0);
        }
    }
    while i < n
        invariant
            i <= n,
            n == cs@.len(),
            cs@ == pattern@,
            convert_hex_strict(cs@) is Ok <==> convert_hex_strict(cs@.skip(i as int)) is Ok,
            convert_hex_strict(cs@) is Ok ==> convert_hex_strict(cs@)->Ok_0 == acc@
                + convert_hex_strict(cs@.skip(i as int))->Ok_0,
            convert_hex_strict(cs@) is Err ==> convert_hex_strict(cs@)->Err_0
                == convert_hex_strict(cs@.skip(i as int))->Err_0,
        decreases n - i,
    {
        let ghost s = cs@.skip(i as int);
        if cs[i] == '\\' && i + 1 < n && (cs[i + 1] == 'x' || cs[i + 1] == 'X') {
            if n - i >= 4 && is_hex_digit(cs[i + 2]) && is_hex_digit(cs[i + 3]) {
                let b = hex_byte_of(cs[i + 2], cs[i + 3]);
                acc.push('\\');
                acc.push('x');
                acc.push(lower_hex_char(b / 16));
                acc.push(lower_hex_char(b % 16));
                proof {
                    assert(s.skip(4) =~= cs@.skip(i + 4));
                    if convert_hex_strict(cs@) is Ok {
                        assert(acc@ + convert_hex_strict(cs@.skip(i + 4))->Ok_0
                            =~= convert_hex_strict(cs@)->Ok_0);
                    }
                }
                i += 4;
            } else if n - i >= 4 {
                let mut msg = str_to_chars("Invalid hex sequence in regex pattern: \\x");
                msg.push(cs[i + 2]);
                msg.push(cs[i + 3]);
                proof {
                    assert(msg@ =~= convert_error_message(
                        HexTokenError::Invalid(cs@[i + 2], cs@[i + 3]),
                    ));
                }
                return Err(BingrepError::InvalidPattern(chars_to_string(&msg)));
            } else if n - i == 3 {
                let mut msg = str_to_chars("Incomplete hex sequence in regex pattern: \\x");
                msg.push(cs[i + 2]);
                proof {
                    assert(msg@ =~= convert_error_message(HexTokenError::MissingOne(cs@[i + 2])));
                }
                return Err(BingrepError::InvalidPattern(chars_to_string(&msg)));
            } else {
                let msg = str_to_chars("Incomplete hex sequence in regex pattern: \\x");
                proof {
                    assert(msg@ =~= convert_error_message(HexTokenError::MissingBoth));
                }
                return Err(BingrepError::InvalidPattern(chars_to_string(&msg)));
            }
        } else {
            acc.push(cs[i]);
            proof {
                assert(s.skip(1) =~= cs@.skip(i + 1));
                if convert_hex_strict(cs@) is Ok {
                    assert(acc@ + convert_hex_strict(cs@.skip(i + 1))->Ok_0 =~= convert_hex_strict(
                        cs@,
                    )->Ok_0);
                }
            }
            i += 1;
        }
    }
    proof {
        assert(cs@.skip(n as int) =~= Seq::<char>::empty());
        if convert_hex_strict(cs@) is Ok {
            assert(acc@ =~= convert_hex_strict(cs@)->Ok_0);
        }
    }
    Ok(chars_to_string(&acc))
}

} // verus!
