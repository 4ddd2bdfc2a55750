use vstd::prelude::*;

verus! {

/// The deterministic filler byte written at position `pos` between the
/// planted patterns.
pub open spec fn filler_byte(pos: nat) -> u8 {
    ((pos * 17 + 42) % 256) as u8
}

/// Test data of exactly `size` bytes: at every position divisible by
/// `interval` where a whole pattern still fits, the next pattern from the
/// rotation is planted; everywhere else a deterministic filler byte.
pub open spec fn patterned_data(
    size: nat,
    patterns: Seq<Seq<u8>>,
    interval: nat,
    pos: nat,
    idx: int,
) -> Seq<u8>
    decreases size - pos,
{
    if pos >= size || interval == 0 || patterns.len() == 0 || !(0 <= idx < patterns.len()) {
        Seq::empty()
    } else if pos % interval == 0 && pos + patterns[idx].len() <= size && patterns[idx].len()
        > 0 {
        patterns[idx] + patterned_data(
            size,
            patterns,
            interval,
            pos + patterns[idx].len(),
            (idx + 1) % (patterns.len() as int),
        )
    } else {
        seq![filler_byte(pos)] + patterned_data(size, patterns, interval, pos + 1, idx)
    }
}

/// Builders for the deterministic data the performance comparisons run on.
pub struct BenchmarkUtils;

impl BenchmarkUtils {
    /// Data of exactly `size` bytes with the patterns planted at every
    /// `interval`-th position where one still fits, rotating through the
    /// pattern list, and deterministic filler bytes in between.
    #[verifier::rlimit(50)]
    pub fn generate_patterned_data(size: usize, patterns: &Vec<Vec<u8>>, interval: usize) -> (r:
        Vec<u8>)
        requires
            interval > 0,
            patterns.len() > 0,
            forall|i: int| 0 <= i < patterns@.len() ==> (#[trigger] patterns@[i])@.len() > 0,
        ensures
            r@ == patterned_data(size as nat, patterns@.map_values(|v: Vec<u8>| v@),
                interval as nat, 0, 0),
    {
        let ghost specpats = patterns@.map_values(|v: Vec<u8>| v@);
        let mut data: Vec<u8> = Vec::new();
        let mut pos: usize = 0;
        let mut idx: usize = 0;
        proof {
            assert(data@ + patterned_data(size as nat, specpats, interval as nat, 0, 0)
                =~= patterned_data(size as nat, specpats, interval as nat, 0, 0));
        }
        while pos < size
            invariant
                pos <= size,
                idx < patterns@.len(),
                specpats == patterns@.map_values(|v: Vec<u8>| v@),
                interval > 0,
                forall|i: int| 0 <= i < patterns@.len() ==> (#[trigger] patterns@[i])@.len() > 0,
                patterned_data(size as nat, specpats, interval as nat, 0, 0) == data@
                    + patterned_data(size as nat, specpats, interval as nat, pos as nat,
                    idx as int),
            decreases size - pos,
        {
            let plen = patterns[idx].len();
            if pos % interval == 0 && plen <= size - pos {
                let ghost prev = data@;
                let mut j: usize = 0;
                while j < plen
                    invariant
                        j <= plen,
                        idx < patterns@.len(),
                        plen == patterns@[idx as int]@.len(),
                        data@ == prev + patterns@[idx as int]@.take(j as int),
                    decreases plen - j,
                {
                    data.push(patterns[idx][j]);
                    proof {
                        assert(data@ =~= prev + patterns@[idx as int]@.take(j + 1));
                    }
                    j += 1;
                }
                proof {
                    assert(patterns@[idx as int]@.take(plen as int) =~= specpats[idx as int]);
                    assert(data@ =~= prev + specpats[idx as int]);
                    assert(patterned_data(size as nat, specpats, interval as nat, pos as nat,
                        idx as int) == specpats[idx as int] + patterned_data(size as nat,
                        specpats, interval as nat, pos as nat + plen as nat, ((idx as int) + 1) % (
                        specpats.len() as int)));
                    assert(prev + (specpats[idx as int] + patterned_data(size as nat, specpats,
                        interval as nat, pos as nat + plen as nat, ((idx as int) + 1) % (
                        specpats.len() as int))) =~= data@ + patterned_data(size as nat, specpats,
                        interval as nat, pos as nat + plen as nat, ((idx as int) + 1) % (
                        specpats.len() as int)));
                }
                let ghost idx0 = idx as int;
                pos = pos + plen;
                idx = if idx < patterns.len() - 1 {
                    idx + 1
                } else {
                    0
                };
                proof {
                    let pl = specpats.len() as int;
                    if idx0 + 1 < pl {
                        assert((idx0 + 1) % pl == idx0 + 1) by (nonlinear_arith)
                            requires
                                0 <= idx0 + 1 < pl,
                        ;
                    } else {
                        assert((idx0 + 1) % pl == 0) by (nonlinear_arith)
                            requires
                                idx0 + 1 == pl,
                                pl > 0,
                        ;
                    }
                    assert(idx as int == (idx0 + 1) % pl);
                }
            } else {
                let b: u8 = ((((pos as u64) % 256) * 17 + 42) % 256) as u8;
                let ghost prev = data@;
                data.push(b);
                proof {
                    vstd::arithmetic::div_mod::lemma_mul_mod_noop_left(pos as int, 17, 256);
                    vstd::arithmetic::div_mod::lemma_add_mod_noop(
                        ((pos as int) % 256) * 17,
                        42,
                        256,
                    );
                    vstd::arithmetic::div_mod::lemma_add_mod_noop(
                        (pos as int) * 17,
                        42,
                        256,
                    );
                    assert((42int) % 256 == 42);
                    assert((((pos as int) % 256) * 17) % 256 == ((pos as int) * 17) % 256);
                    assert(b == filler_byte(pos as nat));
                    assert(patterned_data(size as nat, specpats, interval as nat, pos as nat,
                        idx as int) == seq![filler_byte(pos as nat)] + patterned_data(
                        size as nat, specpats, interval as nat, pos as nat + 1, idx as int));
                    assert(prev + (seq![filler_byte(pos as nat)] + patterned_data(size as nat,
                        specpats, interval as nat, pos as nat + 1, idx as int)) =~= data@
                        + patterned_data(size as nat, specpats, interval as nat, pos as nat + 1,
                        idx as int));
                }
                pos = pos + 1;
            }
        }
        proof {
            assert(patterned_data(size as nat, specpats, interval as nat, pos as nat, idx as int)
                =~= Seq::<u8>::empty());
            assert(data@ =~= patterned_data(size as nat, specpats, interval as nat, 0, 0));
        }
        data
    }

    /// Realistic binary test data: the well-known file and stream headers
    /// of `binary_file_headers`, planted every thousand bytes into
    /// deterministic filler. The result is a pure function of `size`.
    pub fn generate_binary_file_data(size: usize) -> (r: Vec<u8>)
        ensures
            r@ == patterned_data(size as nat, binary_file_headers(), 1000, 0, 0),
            r@.len() == size,
    {
        let mut headers: Vec<Vec<u8>> = Vec::new();
        headers.push(byte_vec(&[0x4D, 0x5A]));
        headers.push(byte_vec(&[0x7F, 0x45, 0x4C, 0x46]));
        headers.push(byte_vec(&[0x89, 0x50, 0x4E, 0x47, 0x0D, 0x0A, 0x1A, 0x0A]));
        headers.push(byte_vec(&[0xFF, 0xD8, 0xFF, 0xE0]));
        headers.push(byte_vec(&[0x00, 0x00, 0x00, 0x01, 0x67]));
        headers.push(byte_vec(&[0x00, 0x00, 0x00, 0x01, 0x68]));
        proof {
            assert(headers@.map_values(|v: Vec<u8>| v@) =~~= binary_file_headers());
        }
        let data = Self::generate_patterned_data(size, &headers, 1000);
        proof {
            lemma_patterned_data_len(size as nat, binary_file_headers(), 1000, 0, 0);
        }
        data
    }

    /// The named example patterns the engine comparisons run with:
    /// always the same ten, in this order.
    pub fn get_test_patterns() -> (r: Vec<(&'static str, &'static str)>)
        ensures
            r@.len() == 10,
            r@[0].0@ == "h264_sps"@ && r@[0].1@ == "\\x00\\x00\\x00\\x01\\x67"@,
            r@[1].0@ == "h264_pps"@ && r@[1].1@ == "\\x00\\x00\\x00\\x01\\x68"@,
            r@[2].0@ == "pe_header"@ && r@[2].1@ == "\\x4D\\x5A"@,
            r@[3].0@ == "elf_header"@ && r@[3].1@ == "\\x7F\\x45\\x4C\\x46"@,
            r@[4].0@ == "png_signature"@ && r@[4].1@ == "\\x89\\x50\\x4E\\x47"@,
            r@[5].0@ == "jpeg_signature"@ && r@[5].1@ == "\\xFF\\xD8\\xFF"@,
            r@[6].0@ == "null_sequence"@ && r@[6].1@ == "\\x00{4}"@,
            r@[7].0@ == "range_quantifier"@ && r@[7].1@ == "\\x00{2,6}"@,
            r@[8].0@ == "plus_quantifier"@ && r@[8].1@ == "\\xFF+"@,
            r@[9].0@ == "alternation"@ && r@[9].1@ == "\\x41|\\x42|\\x43"@,
    {
        let mut patterns: Vec<(&'static str, &'static str)> = Vec::new();
        patterns.push(("h264_sps", "\\x00\\x00\\x00\\x01\\x67"));
        patterns.push(("h264_pps", "\\x00\\x00\\x00\\x01\\x68"));
        patterns.push(("pe_header", "\\x4D\\x5A"));
        patterns.push(("elf_header", "\\x7F\\x45\\x4C\\x46"));
        patterns.push(("png_signature", "\\x89\\x50\\x4E\\x47"));
        patterns.push(("jpeg_signature", "\\xFF\\xD8\\xFF"));
        patterns.push(("null_sequence", "\\x00{4}"));
        patterns.push(("range_quantifier", "\\x00{2,6}"));
        patterns.push(("plus_quantifier", "\\xFF+"));
        patterns.push(("alternation", "\\x41|\\x42|\\x43"));
        patterns
    }
}

/// Planted data fills the requested size exactly: every step adds
/// exactly the bytes it advances by, and nothing runs past the end.
proof fn lemma_patterned_data_len(
    size: nat,
    patterns: Seq<Seq<u8>>,
    interval: nat,
    pos: nat,
    idx: int,
)
    requires
        pos <= size,
        interval > 0,
        patterns.len() > 0,
        0 <= idx < patterns.len(),
    ensures
        patterned_data(size, patterns, interval, pos, idx).len() == size - pos,
    decreases size - pos,
{
    if pos >= size || interval == 0 || patterns.len() == 0 || !(0 <= idx < patterns.len()) {
    } else if pos % interval == 0 && pos + patterns[idx].len() <= size && patterns[idx].len()
        > 0 {
        lemma_patterned_data_len(size, patterns, interval, pos + patterns[idx].len(), (idx + 1) % (
        patterns.len() as int));
    } else {
        lemma_patterned_data_len(size, patterns, interval, pos + 1, idx);
    }
}

/// The header byte strings `generate_binary_file_data` plants: PE, ELF,
/// PNG and JPEG signatures and the two H.264 NAL starts.
pub open spec fn binary_file_headers() -> Seq<Seq<u8>> {
    seq![
        seq![0x4Du8, 0x5Au8],
        seq![0x7Fu8, 0x45u8, 0x4Cu8, 0x46u8],
        seq![0x89u8, 0x50u8, 0x4Eu8, 0x47u8, 0x0Du8, 0x0Au8, 0x1Au8, 0x0Au8],
        seq![0xFFu8, 0xD8u8, 0xFFu8, 0xE0u8],
        seq![0x00u8, 0x00u8, 0x00u8, 0x01u8, 0x67u8],
        seq![0x00u8, 0x00u8, 0x00u8, 0x01u8, 0x68u8],
    ]
}

/// The bytes of a slice, as an owned vector.
fn byte_vec(bytes: &[u8]) -> (r: Vec<u8>)
    ensures
        r@ == bytes@,
{
    let mut v: Vec<u8> = Vec::new();
    let mut i: usize = 0;
    while i < bytes.len()
        invariant
            i <= bytes@.len(),
            v@ == bytes@.take(i as int),
        decreases bytes@.len() - i,
    {
        v.push(bytes[i]);
        proof {
            assert(v@ =~= bytes@.take(i + 1));
        }
        i += 1;
    }
    proof {
        assert(v@ =~= bytes@);
    }
    v
}

} // verus!
