use vstd::prelude::*;

verus! {

/// The uppercase hex digit of a value below 16.
pub open spec fn hex_digit(n: nat) -> char {
    if n == 0 {
        '0'
    } else if n == 1 {
        '1'
    } else if n == 2 {
        '2'
    } else if n == 3 {
        '3'
    } else if n == 4 {
        '4'
    } else if n == 5 {
        '5'
    } else if n == 6 {
        '6'
    } else if n == 7 {
        '7'
    } else if n == 8 {
        '8'
    } else if n == 9 {
        '9'
    } else if n == 10 {
        'A'
    } else if n == 11 {
        'B'
    } else if n == 12 {
        'C'
    } else if n == 13 {
        'D'
    } else if n == 14 {
        'E'
    } else {
        'F'
    }
}

/// The lowercase hex digit of a value below 16.
pub open spec fn lower_hex_digit(n: nat) -> char {
    if n == 10 {
        'a'
    } else if n == 11 {
        'b'
    } else if n == 12 {
        'c'
    } else if n == 13 {
        'd'
    } else if n == 14 {
        'e'
    } else if n == 15 {
        'f'
    } else {
        hex_digit(n)
    }
}

/// Two uppercase hex digits of one byte.
pub open spec fn byte_hex(b: u8) -> Seq<char> {
    seq![hex_digit(b as nat / 16), hex_digit(b as nat % 16)]
}

/// The hex digits of a byte sequence, adjacent bytes joined by `sep`.
pub open spec fn hex_join(bytes: Seq<u8>, sep: Seq<char>) -> Seq<char>
    decreases bytes.len(),
{
    if bytes.len() == 0 {
        Seq::empty()
    } else if bytes.len() == 1 {
        byte_hex(bytes[0])
    } else {
        hex_join(bytes.drop_last(), sep) + sep + byte_hex(bytes.last())
    }
}

/// Uppercase hex digits of `n`, zero-padded on the left to at least `w`
/// digits; a value needing more digits keeps them all.
pub open spec fn hex_padded(n: nat, w: nat) -> Seq<char>
    decreases n, w,
{
    if n < 16 && w <= 1 {
        seq![hex_digit(n)]
    } else {
        hex_padded(n / 16, if w == 0 {
            0
        } else {
            (w - 1) as nat
        }) + seq![hex_digit(n % 16)]
    }
}

/// How many hex digits the value needs (at least one).
pub open spec fn hex_len(n: nat) -> nat
    decreases n,
{
    if n < 16 {
        1
    } else {
        1 + hex_len(n / 16)
    }
}

pub open spec fn pow16(k: nat) -> nat
    decreases k,
{
    if k == 0 {
        1
    } else {
        16 * pow16((k - 1) as nat)
    }
}

/// A value below 16^k needs at most k hex digits.
proof fn lemma_hex_len_bound(n: nat, k: nat)
    requires
        k >= 1,
        n < pow16(k),
    ensures
        hex_len(n) <= k,
    decreases k,
{
    if n < 16 {
    } else {
        assert(pow16(k) == 16 * pow16((k - 1) as nat));
        assert(n / 16 < pow16((k - 1) as nat)) by (nonlinear_arith)
            requires
                n < 16 * pow16((k - 1) as nat),
                n >= 16,
        ;
        lemma_hex_len_bound(n / 16, (k - 1) as nat);
    }
}

/// The hex text of a byte sequence is never padded and never invents
/// bytes: its length is exactly two digits per byte plus one separator
/// between adjacent bytes, so a record short of the display width renders
/// shorter output, not fabricated bytes.
pub proof fn lemma_hex_join_len(bytes: Seq<u8>, sep: Seq<char>)
    ensures
        bytes.len() == 0 ==> hex_join(bytes, sep).len() == 0,
        bytes.len() > 0 ==> hex_join(bytes, sep).len() == 2 * bytes.len() + (bytes.len() - 1)
            * sep.len(),
    decreases bytes.len(),
{
    if bytes.len() == 0 {
    } else if bytes.len() == 1 {
        let bl = bytes.len() as int;
        let sl = sep.len() as int;
        assert((bl - 1) * sl == 0) by (nonlinear_arith)
            requires
                bl == 1,
        ;
        assert(hex_join(bytes, sep).len() == 2);
    } else {
        lemma_hex_join_len(bytes.drop_last(), sep);
        let bl = bytes.len() as int;
        let sl = sep.len() as int;
        assert(hex_join(bytes.drop_last(), sep).len() == 2 * (bl - 1) + (bl - 2) * sl);
        assert(hex_join(bytes, sep).len() == hex_join(bytes.drop_last(), sep).len() + sl + 2);
        assert((bl - 1) * sl == (bl - 2) * sl + sl) by (nonlinear_arith);
        assert(hex_join(bytes, sep).len() == 2 * bl + (bl - 1) * sl);
    }
}

/// One full output line: the padded offset column (when shown), a
/// fixed `h : ` separator, and the joined hex digits of the bytes.
pub open spec fn render_line(
    offset: nat,
    bytes: Seq<u8>,
    sep: Seq<char>,
    show_offset: bool,
    hexlen: nat,
) -> Seq<char> {
    if show_offset {
        hex_padded(offset, hexlen) + seq!['h', ' ', ':', ' '] + hex_join(bytes, sep)
    } else {
        hex_join(bytes, sep)
    }
}

/// Relies on `core::iter::Iterator::collect` for `String`: collecting
/// chars yields the string of exactly those chars, in order.
#[verifier::external_body]
pub fn chars_to_string(v: &Vec<char>) -> (r: String)
    ensures
        r@ == v@,
{
    v.iter().collect()
}

/// The chars of a string slice, as a vector.
pub fn str_to_chars(s: &str) -> (r: Vec<char>)
    ensures
        r@ == s@,
{
    let n = s.unicode_len();
    let mut r: Vec<char> = Vec::new();
    let mut i: usize = 0;
    while i < n
        invariant
            i <= n,
            n == s@.len(),
            r@ == s@.take(i as int),
        decreases n - i,
    {
        r.push(s.get_char(i));
        proof {
            assert(r@ =~= s@.take(i + 1));
        }
        i += 1;
    }
    proof {
        assert(r@ =~= s@);
    }
    r
}

/// The uppercase hex digit char of a value below 16.
pub fn hex_char(n: u8) -> (c: char)
    requires
        n < 16,
    ensures
        c == hex_digit(n as nat),
{
    match n {
        0 => '0',
        1 => '1',
        2 => '2',
        3 => '3',
        4 => '4',
        5 => '5',
        6 => '6',
        7 => '7',
        8 => '8',
        9 => '9',
        10 => 'A',
        11 => 'B',
        12 => 'C',
        13 => 'D',
        14 => 'E',
        _ => 'F',
    }
}

/// The lowercase hex digit char of a value below 16.
pub fn lower_hex_char(n: u8) -> (c: char)
    requires
        n < 16,
    ensures
        c == lower_hex_digit(n as nat),
{
    match n {
        10 => 'a',
        11 => 'b',
        12 => 'c',
        13 => 'd',
        14 => 'e',
        15 => 'f',
        _ => hex_char(n),
    }
}

/// Appends the two uppercase hex digits of `b`.
pub fn push_byte_hex(v: &mut Vec<char>, b: u8)
    ensures
        final(v)@ == old(v)@ + byte_hex(b),
{
    v.push(hex_char(b / 16));
    v.push(hex_char(b % 16));
    proof {
        assert(v@ =~= old(v)@ + byte_hex(b));
    }
}

/// Formatting of scan output: hex byte columns and offset columns.
pub struct OutputFormatter;

impl OutputFormatter {
    /// Each byte as two uppercase hex digits, bytes joined by `separator`.
    pub fn format_bytes_as_hex(bytes: &[u8], separator: &str) -> (r: String)
        ensures
            r@ == hex_join(bytes@, separator@),
    {
        let sep = str_to_chars(separator);
        let mut acc: Vec<char> = Vec::new();
        let n = bytes.len();
        let mut i: usize = 0;
        while i < n
            invariant
                i <= n,
                n == bytes@.len(),
                sep@ == separator@,
                acc@ == hex_join(bytes@.take(i as int), sep@),
            decreases n - i,
        {
            if i > 0 {
                let mut j: usize = 0;
                while j < sep.len()
                    invariant
                        j <= sep@.len(),
                        acc@ == hex_join(bytes@.take(i as int), sep@) + sep@.take(j as int),
                        i >= 1,
                        i <= n,
                        n == bytes@.len(),
                        sep@ == separator@,
                    decreases sep@.len() - j,
                {
                    acc.push(sep[j]);
                    proof {
                        assert(acc@ =~= hex_join(bytes@.take(i as int), sep@) + sep@.take(
                            j + 1,
                        ));
                    }
                    j += 1;
                }
                proof {
                    assert(sep@.take(sep@.len() as int) =~= sep@);
                }
            }
            push_byte_hex(&mut acc, bytes[i]);
            proof {
                let pre = bytes@.take(i as int);
                let cur = bytes@.take(i + 1);
                assert(cur.drop_last() =~= pre);
                assert(cur.last() == bytes@[i as int]);
                if i == 0 {
                    assert(acc@ =~= hex_join(cur, sep@));
                } else {
                    assert(acc@ =~= hex_join(pre, sep@) + sep@ + byte_hex(bytes@[i as int]));
                }
            }
            i += 1;
        }
        proof {
            assert(bytes@.take(n as int) =~= bytes@);
        }
        chars_to_string(&acc)
    }

    /// The offset as uppercase hex, left-padded with zeros to
    /// `hex_offset_length` digits, with a trailing `h`.
    pub fn format_offset(offset: u64, hex_offset_length: usize) -> (r: String)
        ensures
            r@ == hex_padded(offset as nat, hex_offset_length as nat).push('h'),
    {
        let mut v = Self::hex_padded_chars(offset, hex_offset_length);
        v.push('h');
        proof {
            assert(v@ =~= hex_padded(offset as nat, hex_offset_length as nat).push('h'));
        }
        chars_to_string(&v)
    }

    /// The digits of `hex_padded`, as chars.
    fn hex_padded_chars(n: u64, w: usize) -> (r: Vec<char>)
        ensures
            r@ == hex_padded(n as nat, w as nat),
        decreases n, w,
    {
        if n < 16 && w <= 1 {
            let mut v: Vec<char> = Vec::new();
            v.push(hex_char(n as u8));
            proof {
                assert(v@ =~= hex_padded(n as nat, w as nat));
            }
            v
        } else {
            let mut v = Self::hex_padded_chars(n / 16, if w == 0 {
                0
            } else {
                w - 1
            });
            v.push(hex_char((n % 16) as u8));
            proof {
                assert(v@ =~= hex_padded(n as nat, w as nat));
            }
            v
        }
    }

    /// How many digits the offset column needs for a stream of this size.
    pub fn calculate_hex_offset_length(file_size: u64) -> (r: usize)
        ensures
            r == hex_len(file_size as nat),
            1 <= r <= 16,
        decreases file_size,
    {
        if file_size < 16 {
            1
        } else {
            proof {
                reveal_with_fuel(pow16, 16);
                assert(file_size as nat / 16 < pow16(15));
                lemma_hex_len_bound(file_size as nat / 16, 15);
            }
            let rest = Self::calculate_hex_offset_length(file_size / 16);
            1 + rest
        }
    }

    /// The offset column, the `h : ` separator and the hex data, as one line.
    pub fn format_line_with_offset(offset: u64, hex_data: &str, hex_offset_length: usize) -> (r:
        String)
        ensures
            r@ == hex_padded(offset as nat, hex_offset_length as nat) + seq!['h', ' ', ':', ' ']
                + hex_data@,
    {
        let mut s = Self::format_offset(offset, hex_offset_length);
        s.append(" : ");
        s.append(hex_data);
        proof {
            reveal_strlit(" : ");
            assert(s@ =~= hex_padded(offset as nat, hex_offset_length as nat) + seq![
                'h',
                ' ',
                ':',
                ' ',
            ] + hex_data@);
        }
        s
    }
}

} // verus!
