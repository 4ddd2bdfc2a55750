use crate::buffer_manager::BufferManager;
use crate::byte_stream::{read_amount, ByteStream};
use crate::cli::Cli;
use crate::config::Config;
use crate::error::BingrepError;
use crate::output::{hex_join, hex_len, render_line, OutputFormatter};
use crate::regex_processor::{engine_find, engine_matches, Matcher};
use crate::translit::spans_wf;
use vstd::prelude::*;

verus! {

/// The views of a sequence of output lines.
pub open spec fn views_of(v: Seq<String>) -> Seq<Seq<char>> {
    v.map_values(|s: String| s@)
}

/// Negative positions clamp to the start of the stream, as a saturating
/// rewind does.
pub open spec fn floor0(x: int) -> int {
    if x < 0 {
        0
    } else {
        x
    }
}

/// The fixed parameters of one scan: window capacity `w`, overlap padding
/// `pad`, display width, line limit (0 for unlimited), separator text,
/// whether offsets are shown, and the offset column width.
pub struct ScanParams {
    pub w: nat,
    pub pad: nat,
    pub width: nat,
    pub limit: nat,
    pub sep: Seq<char>,
    pub show: bool,
    pub hexlen: nat,
}

/// The lines of a plain hex dump of `data` from `pos` on: consecutive
/// `width`-byte records, the last one short, stopping once `limit` lines
/// (counting from `count`) are written.
pub open spec fn dump_lines(
    data: Seq<u8>,
    pos: int,
    width: nat,
    limit: nat,
    count: nat,
    sep: Seq<char>,
    show: bool,
    hexlen: nat,
) -> Seq<Seq<char>>
    decreases data.len() - pos,
{
    if pos < 0 || pos >= data.len() || width == 0 {
        Seq::empty()
    } else {
        let n = read_amount(width as int, data.len() - pos);
        let line = render_line(pos as nat, data.subrange(pos, pos + n), sep, show, hexlen);
        if limit > 0 && count + 1 >= limit {
            seq![line]
        } else {
            seq![line] + dump_lines(data, pos + n, width, limit, count + 1, sep, show, hexlen)
        }
    }
}

/// The lines of one whole-buffer pattern scan: one line per span, from
/// span `k` on, each rendering the `width` bytes at the span's start
/// (short at the end of the data), stopping at the line limit.
pub open spec fn match_lines(
    data: Seq<u8>,
    spans: Seq<(usize, usize)>,
    k: int,
    width: nat,
    limit: nat,
    count: nat,
    sep: Seq<char>,
    show: bool,
    hexlen: nat,
) -> Seq<Seq<char>>
    decreases spans.len() - k,
{
    if k < 0 || k >= spans.len() {
        Seq::empty()
    } else {
        let s = spans[k].0 as int;
        if s > data.len() {
            Seq::empty()
        } else {
            let m = read_amount(width as int, data.len() - s);
            let line = render_line(s as nat, data.subrange(s, s + m), sep, show, hexlen);
            if limit > 0 && count + 1 >= limit {
                seq![line]
            } else {
                seq![line] + match_lines(data, spans, k + 1, width, limit, count + 1, sep, show, hexlen)
            }
        }
    }
}

/// The lines of the windowed scan from window position `pos` on, with
/// `last` the offset of the last accepted match (-1 before the first) and
/// `count` the lines written so far. Each window holds the next
/// `min(w, len - pos)` bytes; its matches are handled by
/// `scan_in_window`, and a full window is followed by a `pad`-byte
/// overlap rewind.
pub open spec fn scan_windows(
    data: Seq<u8>,
    pat: Seq<char>,
    p: ScanParams,
    pos: int,
    last: int,
    count: nat,
) -> Seq<Seq<char>>
    decreases data.len() - last, data.len() - pos, 1int, 0int,
{
    if !(0 <= pos && pos <= data.len() && -1 <= last && last <= data.len() && p.pad < p.w) {
        Seq::empty()
    } else {
        let n = read_amount(p.w as int, data.len() - pos);
        if n <= 0 {
            Seq::empty()
        } else {
            let spans = engine_matches(pat, data.subrange(pos, pos + n));
            scan_in_window(data, pat, p, spans, 0, pos, n, last, count)
        }
    }
}

/// Handles the spans of one window, from span `k` on. A span at or below
/// `last` was already written from an earlier, overlapping window and is
/// dropped. A span whose display bytes run past a full window stops the
/// window: the scan seeks back to the match, records its offset as the
/// last accepted one, and reads afresh from just before it — the re-read
/// window then treats that very span as already handled, so it is never
/// emitted, and the scan goes on with the matches after it. Any other
/// span is written as one line and becomes the new `last`.
pub open spec fn scan_in_window(
    data: Seq<u8>,
    pat: Seq<char>,
    p: ScanParams,
    spans: Seq<(usize, usize)>,
    k: int,
    pos: int,
    n: int,
    last: int,
    count: nat,
) -> Seq<Seq<char>>
    decreases data.len() - last, data.len() - pos, 0int, spans.len() - k,
{
    if !(0 <= pos && 0 < n && pos + n <= data.len() && -1 <= last && last <= data.len() && p.pad
        < p.w && n <= p.w) {
        Seq::empty()
    } else if k < 0 || k >= spans.len() {
        let next = if n == p.w {
            pos + n - p.pad
        } else {
            pos + n
        };
        scan_windows(data, pat, p, next, last, count)
    } else {
        let s = spans[k].0 as int;
        if s > n {
            Seq::empty()
        } else {
            let g = pos + s;
            if g <= last {
                scan_in_window(data, pat, p, spans, k + 1, pos, n, last, count)
            } else if s + p.width > n && n == p.w {
                scan_windows(data, pat, p, floor0(g - p.pad), g, count)
            } else {
                let m = read_amount(p.width as int, data.len() - g);
                let line = render_line(g as nat, data.subrange(g, g + m), p.sep, p.show, p.hexlen);
                if p.limit > 0 && count + 1 >= p.limit {
                    seq![line]
                } else {
                    seq![line] + scan_in_window(data, pat, p, spans, k + 1, pos, n, g, count + 1)
                }
            }
        }
    }
}

/// The companion of `scan_windows` that records, instead of the rendered
/// lines, the global offset of each match the scan accepts: same
/// recursion, same cases, one offset per emitted line.
pub open spec fn scan_windows_offsets(
    data: Seq<u8>,
    pat: Seq<char>,
    p: ScanParams,
    pos: int,
    last: int,
    count: nat,
) -> Seq<int>
    decreases data.len() - last, data.len() - pos, 1int, 0int,
{
    if !(0 <= pos && pos <= data.len() && -1 <= last && last <= data.len() && p.pad < p.w) {
        Seq::empty()
    } else {
        let n = read_amount(p.w as int, data.len() - pos);
        if n <= 0 {
            Seq::empty()
        } else {
            let spans = engine_matches(pat, data.subrange(pos, pos + n));
            scan_in_window_offsets(data, pat, p, spans, 0, pos, n, last, count)
        }
    }
}

/// The companion of `scan_in_window` recording accepted match offsets.
pub open spec fn scan_in_window_offsets(
    data: Seq<u8>,
    pat: Seq<char>,
    p: ScanParams,
    spans: Seq<(usize, usize)>,
    k: int,
    pos: int,
    n: int,
    last: int,
    count: nat,
) -> Seq<int>
    decreases data.len() - last, data.len() - pos, 0int, spans.len() - k,
{
    if !(0 <= pos && 0 < n && pos + n <= data.len() && -1 <= last && last <= data.len() && p.pad
        < p.w && n <= p.w) {
        Seq::empty()
    } else if k < 0 || k >= spans.len() {
        let next = if n == p.w {
            pos + n - p.pad
        } else {
            pos + n
        };
        scan_windows_offsets(data, pat, p, next, last, count)
    } else {
        let s = spans[k].0 as int;
        if s > n {
            Seq::empty()
        } else {
            let g = pos + s;
            if g <= last {
                scan_in_window_offsets(data, pat, p, spans, k + 1, pos, n, last, count)
            } else if s + p.width > n && n == p.w {
                scan_windows_offsets(data, pat, p, floor0(g - p.pad), g, count)
            } else {
                if p.limit > 0 && count + 1 >= p.limit {
                    seq![g]
                } else {
                    seq![g] + scan_in_window_offsets(data, pat, p, spans, k + 1, pos, n, g, count
                        + 1)
                }
            }
        }
    }
}

/// A sequence of offsets all above a floor and in strictly ascending
/// order: no offset is written twice, and none at or below the floor.
pub open spec fn offsets_increase(offs: Seq<int>, last: int) -> bool {
    (forall|i: int| 0 <= i < offs.len() ==> #[trigger] offs[i] > last) && (forall|i: int|
        0 < i < offs.len() ==> offs[i - 1] < #[trigger] offs[i])
}

/// No duplication across overlapping windows: every offset the windowed
/// scan accepts lies strictly above the scan cursor it started from, and
/// the accepted offsets strictly increase over the whole scan — the same
/// window bytes re-read after an overlap rewind never emit a match twice.
pub proof fn lemma_scan_offsets_increase(
    data: Seq<u8>,
    pat: Seq<char>,
    p: ScanParams,
    pos: int,
    last: int,
    count: nat,
)
    ensures
        offsets_increase(scan_windows_offsets(data, pat, p, pos, last, count), last),
    decreases data.len() - last, data.len() - pos, 1int, 0int,
{
    if !(0 <= pos && pos <= data.len() && -1 <= last && last <= data.len() && p.pad < p.w) {
    } else {
        let n = read_amount(p.w as int, data.len() - pos);
        if n <= 0 {
        } else {
            let spans = engine_matches(pat, data.subrange(pos, pos + n));
            lemma_scan_in_window_offsets_increase(data, pat, p, spans, 0, pos, n, last, count);
        }
    }
}

/// As `lemma_scan_offsets_increase`, for the spans of one window.
pub proof fn lemma_scan_in_window_offsets_increase(
    data: Seq<u8>,
    pat: Seq<char>,
    p: ScanParams,
    spans: Seq<(usize, usize)>,
    k: int,
    pos: int,
    n: int,
    last: int,
    count: nat,
)
    ensures
        offsets_increase(scan_in_window_offsets(data, pat, p, spans, k, pos, n, last, count), last),
    decreases data.len() - last, data.len() - pos, 0int, spans.len() - k,
{
    if !(0 <= pos && 0 < n && pos + n <= data.len() && -1 <= last && last <= data.len() && p.pad
        < p.w && n <= p.w) {
    } else if k < 0 || k >= spans.len() {
        let next = if n == p.w {
            pos + n - p.pad
        } else {
            pos + n
        };
        lemma_scan_offsets_increase(data, pat, p, next, last, count);
    } else {
        let s = spans[k].0 as int;
        if s > n {
        } else {
            let g = pos + s;
            if g <= last {
                lemma_scan_in_window_offsets_increase(data, pat, p, spans, k + 1, pos, n, last,
                    count);
            } else if s + p.width > n && n == p.w {
                lemma_scan_offsets_increase(data, pat, p, floor0(g - p.pad), g, count);
                let offs = scan_windows_offsets(data, pat, p, floor0(g - p.pad), g, count);
                assert forall|i: int|
                    0 <= i < offs.len() implies #[trigger] offs[i] > last by {
                    assert(offs[i] > g);
                }
            } else {
                if p.limit > 0 && count + 1 >= p.limit {
                } else {
                    lemma_scan_in_window_offsets_increase(data, pat, p, spans, k + 1, pos, n, g,
                        count + 1);
                    let rest = scan_in_window_offsets(data, pat, p, spans, k + 1, pos, n, g, count
                        + 1);
                    let offs = scan_in_window_offsets(data, pat, p, spans, k, pos, n, last, count);
                    assert(offs == seq![g] + rest);
                    assert forall|i: int|
                        0 <= i < offs.len() implies #[trigger] offs[i] > last by {
                        if i == 0 {
                        } else {
                            assert(offs[i] == rest[i - 1]);
                            assert(rest[i - 1] > g);
                        }
                    }
                    assert forall|i: int|
                        0 < i < offs.len() implies offs[i - 1] < #[trigger] offs[i] by {
                        assert(offs[i] == rest[i - 1]);
                        if i == 1 {
                            assert(offs[0] == g);
                            assert(rest[0] > g);
                        } else {
                            assert(offs[i - 1] == rest[i - 2]);
                            assert(rest[i - 2] < rest[i - 1]);
                        }
                    }
                }
            }
        }
    }
}

/// The offset companion walks in step with the line model: the scan
/// accepts exactly one offset per line it emits, so the strictly
/// increasing offsets of `lemma_scan_offsets_increase` are the offsets
/// of the lines `process_stream_by_regex` writes.
pub proof fn lemma_scan_offsets_count_lines(
    data: Seq<u8>,
    pat: Seq<char>,
    p: ScanParams,
    pos: int,
    last: int,
    count: nat,
)
    ensures
        scan_windows_offsets(data, pat, p, pos, last, count).len() == scan_windows(
            data,
            pat,
            p,
            pos,
            last,
            count,
        ).len(),
    decreases data.len() - last, data.len() - pos, 1int, 0int,
{
    if !(0 <= pos && pos <= data.len() && -1 <= last && last <= data.len() && p.pad < p.w) {
    } else {
        let n = read_amount(p.w as int, data.len() - pos);
        if n <= 0 {
        } else {
            let spans = engine_matches(pat, data.subrange(pos, pos + n));
            lemma_scan_in_window_offsets_count_lines(data, pat, p, spans, 0, pos, n, last, count);
        }
    }
}

/// As `lemma_scan_offsets_count_lines`, for the spans of one window.
pub proof fn lemma_scan_in_window_offsets_count_lines(
    data: Seq<u8>,
    pat: Seq<char>,
    p: ScanParams,
    spans: Seq<(usize, usize)>,
    k: int,
    pos: int,
    n: int,
    last: int,
    count: nat,
)
    ensures
        scan_in_window_offsets(data, pat, p, spans, k, pos, n, last, count).len()
            == scan_in_window(data, pat, p, spans, k, pos, n, last, count).len(),
    decreases data.len() - last, data.len() - pos, 0int, spans.len() - k,
{
    if !(0 <= pos && 0 < n && pos + n <= data.len() && -1 <= last && last <= data.len() && p.pad
        < p.w && n <= p.w) {
    } else if k < 0 || k >= spans.len() {
        let next = if n == p.w {
            pos + n - p.pad
        } else {
            pos + n
        };
        lemma_scan_offsets_count_lines(data, pat, p, next, last, count);
    } else {
        let s = spans[k].0 as int;
        if s > n {
        } else {
            let g = pos + s;
            if g <= last {
                lemma_scan_in_window_offsets_count_lines(data, pat, p, spans, k + 1, pos, n, last,
                    count);
            } else if s + p.width > n && n == p.w {
                lemma_scan_offsets_count_lines(data, pat, p, floor0(g - p.pad), g, count);
            } else {
                if p.limit > 0 && count + 1 >= p.limit {
                } else {
                    lemma_scan_in_window_offsets_count_lines(data, pat, p, spans, k + 1, pos, n,
                        g, count + 1);
                }
            }
        }
    }
}

/// Renders one output line: the bytes as hex, behind an offset column
/// when `show_offset` is set.
fn render_one_line(
    bytes: &[u8],
    offset: u64,
    separator: &str,
    show_offset: bool,
    hex_offset_length: usize,
) -> (r: String)
    ensures
        r@ == render_line(
            offset as nat,
            bytes@,
            separator@,
            show_offset,
            hex_offset_length as nat,
        ),
{
    let hex = OutputFormatter::format_bytes_as_hex(bytes, separator);
    if show_offset {
        OutputFormatter::format_line_with_offset(offset, hex.as_str(), hex_offset_length)
    } else {
        hex
    }
}

/// Dumps an in-memory buffer as consecutive `width`-byte hex records,
/// appending one line per record to `out`, up to the line limit.
pub fn process_stdin_hex_dump(data: &[u8], cli: &Cli, data_size: u64, out: &mut Vec<String>) -> (r:
    Result<(), BingrepError>)
    ensures
        r is Ok,
        views_of(final(out)@) == views_of(old(out)@) + dump_lines(
            data@,
            0,
            cli.line_width as nat,
            cli.limit as nat,
            0,
            cli.separator@,
            !cli.hide_offset,
            hex_len(data_size as nat),
        ),
{
    let hex_offset_length = OutputFormatter::calculate_hex_offset_length(data_size);
    let width = cli.line_width;
    let limit = cli.limit;
    let show = !cli.hide_offset;
    if width == 0 {
        return Ok(());
    }
    let mut pos: usize = 0;
    let mut line: usize = 0;
    let ghost mut gcount: nat = 0;
    while pos < data.len()
        invariant_except_break
            pos <= data@.len(),
            width == cli.line_width,
            limit == cli.limit,
            show == !cli.hide_offset,
            width >= 1,
            hex_offset_length == hex_len(data_size as nat),
            limit > 0 ==> line == gcount && gcount < limit,
            views_of(old(out)@) + dump_lines(
                data@,
                0,
                width as nat,
                limit as nat,
                0,
                cli.separator@,
                show,
                hex_offset_length as nat,
            ) == views_of(out@) + dump_lines(
                data@,
                pos as int,
                width as nat,
                limit as nat,
                gcount,
                cli.separator@,
                show,
                hex_offset_length as nat,
            ),
        ensures
            views_of(old(out)@) + dump_lines(
                data@,
                0,
                width as nat,
                limit as nat,
                0,
                cli.separator@,
                show,
                hex_offset_length as nat,
            ) == views_of(out@),
        decreases data@.len() - pos,
    {
        let remaining = data.len() - pos;
        let m = if width <= remaining {
            width
        } else {
            remaining
        };
        let chunk = vstd::slice::slice_subrange(data, pos, pos + m);
        let rendered = render_one_line(chunk, pos as u64, cli.separator.as_str(), show,
            hex_offset_length);
        let ghost prev_out = out@;
        let ghost prev_pos = pos as int;
        out.push(rendered);
        proof {
            assert(views_of(out@) =~= views_of(prev_out).push(rendered@));
            let spec_rest = dump_lines(
                data@,
                prev_pos,
                width as nat,
                limit as nat,
                gcount,
                cli.separator@,
                show,
                hex_offset_length as nat,
            );
            assert(m as int == read_amount(width as int, data@.len() - prev_pos));
            if limit > 0 && gcount + 1 >= limit as nat {
                assert(spec_rest =~= seq![rendered@]);
                assert(views_of(out@) =~= views_of(prev_out) + spec_rest);
            } else {
                assert(spec_rest =~= seq![rendered@] + dump_lines(
                    data@,
                    prev_pos + m,
                    width as nat,
                    limit as nat,
                    gcount + 1,
                    cli.separator@,
                    show,
                    hex_offset_length as nat,
                ));
                assert(views_of(prev_out) + spec_rest =~= views_of(out@) + dump_lines(
                    data@,
                    prev_pos + m,
                    width as nat,
                    limit as nat,
                    gcount + 1,
                    cli.separator@,
                    show,
                    hex_offset_length as nat,
                ));
            }
        }
        pos = pos + m;
        proof {
            gcount = gcount + 1;
        }
        if limit > 0 {
            line = line + 1;
            if line >= limit {
                break ;
            }
        }
    }
    proof {
        if pos >= data@.len() {
            assert(dump_lines(
                data@,
                pos as int,
                width as nat,
                limit as nat,
                gcount,
                cli.separator@,
                show,
                hex_offset_length as nat,
            ) =~= Seq::<Seq<char>>::empty());
        }
    }
    Ok(())
}

/// Scans an in-memory buffer with a compiled matcher in one shot and
/// appends one line per match to `out`: the `width` bytes at the match
/// (short at the end of the data), up to the line limit.
pub fn process_stdin_with_regex(
    data: &[u8],
    regex: &Matcher,
    cli: &Cli,
    data_size: u64,
    out: &mut Vec<String>,
) -> (r: Result<(), BingrepError>)
    ensures
        r is Ok,
        views_of(final(out)@) == views_of(old(out)@) + match_lines(
            data@,
            engine_matches(regex.pattern(), data@),
            0,
            cli.line_width as nat,
            cli.limit as nat,
            0,
            cli.separator@,
            !cli.hide_offset,
            hex_len(data_size as nat),
        ),
{
    let hex_offset_length = OutputFormatter::calculate_hex_offset_length(data_size);
    let width = cli.line_width;
    let limit = cli.limit;
    let show = !cli.hide_offset;
    let spans = engine_find(regex, data);
    let mut k: usize = 0;
    let mut line: usize = 0;
    let ghost mut gcount: nat = 0;
    while k < spans.len()
        invariant_except_break
            k <= spans@.len(),
            spans@ == engine_matches(regex.pattern(), data@),
            spans_wf(spans@, data@.len()),
            width == cli.line_width,
            limit == cli.limit,
            show == !cli.hide_offset,
            hex_offset_length == hex_len(data_size as nat),
            limit > 0 ==> line == gcount && gcount < limit,
            views_of(old(out)@) + match_lines(
                data@,
                spans@,
                0,
                width as nat,
                limit as nat,
                0,
                cli.separator@,
                show,
                hex_offset_length as nat,
            ) == views_of(out@) + match_lines(
                data@,
                spans@,
                k as int,
                width as nat,
                limit as nat,
                gcount,
                cli.separator@,
                show,
                hex_offset_length as nat,
            ),
        ensures
            views_of(old(out)@) + match_lines(
                data@,
                spans@,
                0,
                width as nat,
                limit as nat,
                0,
                cli.separator@,
                show,
                hex_offset_length as nat,
            ) == views_of(out@),
        decreases spans@.len() - k,
    {
        let s = spans[k].0;
        proof {
            assert(spans@[k as int].0 <= data@.len());
        }
        let remaining = data.len() - s;
        let m = if width <= remaining {
            width
        } else {
            remaining
        };
        let chunk = vstd::slice::slice_subrange(data, s, s + m);
        let rendered = render_one_line(chunk, s as u64, cli.separator.as_str(), show,
            hex_offset_length);
        let ghost prev_out = out@;
        out.push(rendered);
        proof {
            assert(views_of(out@) =~= views_of(prev_out).push(rendered@));
            let spec_rest = match_lines(
                data@,
                spans@,
                k as int,
                width as nat,
                limit as nat,
                gcount,
                cli.separator@,
                show,
                hex_offset_length as nat,
            );
            assert(m as int == read_amount(width as int, data@.len() - s));
            if limit > 0 && gcount + 1 >= limit as nat {
                assert(spec_rest =~= seq![rendered@]);
                assert(views_of(out@) =~= views_of(prev_out) + spec_rest);
            } else {
                assert(spec_rest =~= seq![rendered@] + match_lines(
                    data@,
                    spans@,
                    k + 1,
                    width as nat,
                    limit as nat,
                    gcount + 1,
                    cli.separator@,
                    show,
                    hex_offset_length as nat,
                ));
                assert(views_of(prev_out) + spec_rest =~= views_of(out@) + match_lines(
                    data@,
                    spans@,
                    k + 1,
                    width as nat,
                    limit as nat,
                    gcount + 1,
                    cli.separator@,
                    show,
                    hex_offset_length as nat,
                ));
            }
        }
        k = k + 1;
        proof {
            gcount = gcount + 1;
        }
        if limit > 0 {
            line = line + 1;
            if line >= limit {
                break ;
            }
        }
    }
    proof {
        if k >= spans@.len() {
            assert(match_lines(
                data@,
                spans@,
                k as int,
                width as nat,
                limit as nat,
                gcount,
                cli.separator@,
                show,
                hex_offset_length as nat,
            ) =~= Seq::<Seq<char>>::empty());
        }
    }
    Ok(())
}

/// Drives a stream through the window scan: owns the configuration and
/// the reused buffers.
pub struct FileProcessor {
    pub config: Config,
    pub buffer_manager: BufferManager,
}

impl FileProcessor {
    /// A processor whose window has the configured capacity and whose
    /// extra buffer covers at least the largest display width.
    pub fn new(config: Config) -> (r: FileProcessor)
        ensures
            r.config == config,
            r.buffer_manager.main_buffer@.len() == config.buffer_size,
            r.buffer_manager.extra_buffer@.len() == if config.max_line_width >= 1024 {
                config.max_line_width
            } else {
                1024
            },
    {
        let buffer_size = config.buffer_size;
        let max_extra_size = if config.max_line_width >= 1024 {
            config.max_line_width
        } else {
            1024
        };
        let buffer_manager = BufferManager::new(buffer_size, max_extra_size);
        FileProcessor { config, buffer_manager }
    }

    /// Dumps the stream from its current position as consecutive
    /// `width`-byte hex records, appending one line per record to `out`,
    /// up to the line limit. A read failure stops the dump; the lines
    /// already written stay.
    pub fn process_file_stream<R: ByteStream>(
        &mut self,
        file: &mut R,
        width: usize,
        limit: usize,
        separator: &str,
        show_offset: bool,
        file_size: u64,
        out: &mut Vec<String>,
    ) -> (r: Result<(), BingrepError>)
        requires
            old(file).wf(),
        ensures
            final(file).wf(),
            final(file).contents() == old(file).contents(),
            final(file).never_fails() == old(file).never_fails(),
            final(self).config == old(self).config,
            old(out)@.is_prefix_of(final(out)@),
            r is Ok ==> views_of(final(out)@) == views_of(old(out)@) + dump_lines(
                old(file).contents(),
                old(file).cursor(),
                width as nat,
                limit as nat,
                0,
                separator@,
                show_offset,
                hex_len(file_size as nat),
            ),
            old(file).never_fails() ==> r is Ok,
            r is Err ==> r->Err_0 is Io,
    {
        let hex_offset_length = OutputFormatter::calculate_hex_offset_length(file_size);
        let mut pos: u64 = match file.stream_position() {
            Ok(p) => p,
            Err(e) => {
                proof {
                    assert(old(out)@.is_prefix_of(out@));
                }
                return Err(e);
            },
        };
        let mut line: usize = 0;
        let ghost mut gcount: nat = 0;
        let ghost data = old(file).contents();
        let ghost pos0 = old(file).cursor();
        proof {
            assert(out@.take(old(out)@.len() as int) =~= old(out)@);
        }
        loop
            invariant_except_break
                file.wf(),
                file.contents() == data,
                data == old(file).contents(),
                data.len() <= u64::MAX,
                file.never_fails() == old(file).never_fails(),
                self.config == old(self).config,
                pos == file.cursor(),
                pos <= data.len(),
                pos0 == old(file).cursor(),
                hex_offset_length == hex_len(file_size as nat),
                limit > 0 ==> line == gcount && gcount < limit,
                old(out)@.is_prefix_of(out@),
                views_of(old(out)@) + dump_lines(
                    data,
                    pos0,
                    width as nat,
                    limit as nat,
                    0,
                    separator@,
                    show_offset,
                    hex_len(file_size as nat),
                ) == views_of(out@) + dump_lines(
                    data,
                    pos as int,
                    width as nat,
                    limit as nat,
                    gcount,
                    separator@,
                    show_offset,
                    hex_len(file_size as nat),
                ),
            ensures
                file.wf(),
                file.contents() == data,
                data == old(file).contents(),
                file.never_fails() == old(file).never_fails(),
                self.config == old(self).config,
                old(out)@.is_prefix_of(out@),
                views_of(old(out)@) + dump_lines(
                    data,
                    pos0,
                    width as nat,
                    limit as nat,
                    0,
                    separator@,
                    show_offset,
                    hex_len(file_size as nat),
                ) == views_of(out@),
            decreases data.len() - file.cursor(),
        {
            let bytes_read = match self.buffer_manager.read_into_extra(file, width) {
                Ok(n) => n,
                Err(e) => {
                    return Err(e);
                },
            };
            if bytes_read == 0 {
                proof {
                    assert(dump_lines(
                        data,
                        pos as int,
                        width as nat,
                        limit as nat,
                        gcount,
                        separator@,
                        show_offset,
                        hex_len(file_size as nat),
                    ) =~= Seq::<Seq<char>>::empty());
                }
                break ;
            }
            let chunk = self.buffer_manager.get_extra_slice(bytes_read);
            proof {
                assert(chunk@ =~= data.subrange(pos as int, pos + bytes_read));
            }
            let rendered = render_one_line(chunk, pos, separator, show_offset, hex_offset_length);
            let ghost prev_out = out@;
            let ghost prev_pos = pos as int;
            out.push(rendered);
            proof {
                assert(views_of(out@) =~= views_of(prev_out).push(rendered@));
                assert(out@.take(old(out)@.len() as int) =~= prev_out.take(
                    old(out)@.len() as int,
                ));
                let spec_rest = dump_lines(
                    data,
                    prev_pos,
                    width as nat,
                    limit as nat,
                    gcount,
                    separator@,
                    show_offset,
                    hex_len(file_size as nat),
                );
                assert(bytes_read as int == read_amount(width as int, data.len() - prev_pos));
                if limit > 0 && gcount + 1 >= limit as nat {
                    assert(spec_rest =~= seq![rendered@]);
                    assert(views_of(out@) =~= views_of(prev_out) + spec_rest);
                } else {
                    assert(spec_rest =~= seq![rendered@] + dump_lines(
                        data,
                        prev_pos + bytes_read,
                        width as nat,
                        limit as nat,
                        gcount + 1,
                        separator@,
                        show_offset,
                        hex_len(file_size as nat),
                    ));
                    assert(views_of(prev_out) + spec_rest =~= views_of(out@) + dump_lines(
                        data,
                        prev_pos + bytes_read,
                        width as nat,
                        limit as nat,
                        gcount + 1,
                        separator@,
                        show_offset,
                        hex_len(file_size as nat),
                    ));
                }
            }
            pos = pos + (bytes_read as u64);
            proof {
                gcount = gcount + 1;
            }
            if limit > 0 {
                line = line + 1;
                if line >= limit {
                    break ;
                }
            }
        }
        Ok(())
    }

    /// Scans the stream window by window with a compiled matcher and
    /// appends one line per accepted match to `out`. A match at or below
    /// the last accepted offset is dropped, so the offsets written
    /// strictly increase. A match whose display bytes run past a full
    /// window restarts reading at the match and records its offset as
    /// handled: that match itself is therefore dropped, and scanning
    /// resumes with the matches after it. After a full window the stream
    /// rewinds by the overlap padding so a pattern starting near the
    /// window's end is offered again whole. A read or seek failure stops
    /// the scan; the lines already written stay.
    pub fn process_stream_by_regex<R: ByteStream>(
        &mut self,
        file: &mut R,
        regex: &Matcher,
        width: usize,
        limit: usize,
        separator: &str,
        show_offset: bool,
        out: &mut Vec<String>,
    ) -> (r: Result<(), BingrepError>)
        requires
            old(file).wf(),
            old(self).config.buffer_padding < old(self).config.spec_buffer_size(width),
        ensures
            final(file).wf(),
            final(file).contents() == old(file).contents(),
            final(file).never_fails() == old(file).never_fails(),
            final(self).config == old(self).config,
            old(out)@.is_prefix_of(final(out)@),
            r is Ok ==> views_of(final(out)@) == views_of(old(out)@) + scan_windows(
                old(file).contents(),
                regex.pattern(),
                ScanParams {
                    w: old(self).config.spec_buffer_size(width) as nat,
                    pad: old(self).config.buffer_padding as nat,
                    width: width as nat,
                    limit: limit as nat,
                    sep: separator@,
                    show: show_offset,
                    hexlen: hex_len(old(file).contents().len()),
                },
                old(file).cursor(),
                -1,
                0,
            ),
            old(file).never_fails() ==> r is Ok,
            r is Err ==> r->Err_0 is Io,
    {
        let w = self.config.get_buffer_size(width);
        if self.buffer_manager.main_buffer.len() != w {
            self.buffer_manager.main_buffer.resize(w, 0u8);
        }
        let pad = self.config.buffer_padding;
        let file_size = match file.stream_len() {
            Ok(s) => s,
            Err(e) => {
                proof {
                    assert(old(out)@.is_prefix_of(out@));
                }
                return Err(e);
            },
        };
        let hex_offset_length = OutputFormatter::calculate_hex_offset_length(file_size);
        let mut line: usize = 0;
        let mut last_hit: Option<u64> = None;
        let ghost mut gcount: nat = 0;
        let ghost mut glast: int = -1;
        let ghost data = old(file).contents();
        let ghost pat = regex.pattern();
        let ghost p = ScanParams {
            w: w as nat,
            pad: pad as nat,
            width: width as nat,
            limit: limit as nat,
            sep: separator@,
            show: show_offset,
            hexlen: hex_len(data.len()),
        };
        proof {
            assert(out@.take(old(out)@.len() as int) =~= old(out)@);
        }
        loop
            invariant_except_break
                file.wf(),
                file.contents() == data,
                data == old(file).contents(),
                data.len() == file_size,
                file.never_fails() == old(file).never_fails(),
                self.config == old(self).config,
                self.buffer_manager.main_buffer@.len() == w as int,
                w == old(self).config.spec_buffer_size(width),
                pad == old(self).config.buffer_padding,
                pad < w,
                p == (ScanParams {
                    w: w as nat,
                    pad: pad as nat,
                    width: width as nat,
                    limit: limit as nat,
                    sep: separator@,
                    show: show_offset,
                    hexlen: hex_len(data.len()),
                }),
                pat == regex.pattern(),
                hex_offset_length == hex_len(data.len()),
                -1 <= glast <= data.len(),
                glast == (match last_hit {
                    Option::None => -1int,
                    Option::Some(v) => v as int,
                }),
                limit > 0 ==> line == gcount && gcount < limit,
                old(out)@.is_prefix_of(out@),
                views_of(old(out)@) + scan_windows(data, pat, p, old(file).cursor(), -1, 0)
                    == views_of(out@) + scan_windows(data, pat, p, file.cursor(), glast, gcount),
            ensures
                file.wf(),
                file.contents() == data,
                data == old(file).contents(),
                file.never_fails() == old(file).never_fails(),
                self.config == old(self).config,
                old(out)@.is_prefix_of(out@),
                views_of(old(out)@) + scan_windows(data, pat, p, old(file).cursor(), -1, 0)
                    == views_of(out@),
            decreases data.len() - glast, data.len() - file.cursor(),
        {
            let ghost glast0 = glast;
            let start_offset = match file.stream_position() {
                Ok(v) => v,
                Err(e) => {
                    return Err(e);
                },
            };
            let bytes_read = match self.buffer_manager.read_into_main(file) {
                Ok(n) => n,
                Err(e) => {
                    return Err(e);
                },
            };
            if bytes_read == 0 {
                proof {
                    assert(scan_windows(data, pat, p, start_offset as int, glast, gcount)
                        =~= Seq::<Seq<char>>::empty());
                }
                break ;
            }
            proof {
                assert(self.buffer_manager.main_buffer@.subrange(0, bytes_read as int)
                    =~= data.subrange(start_offset as int, start_offset + bytes_read));
            }
            let window = self.buffer_manager.get_main_slice(0, bytes_read);
            let spans = engine_find(regex, window);
            proof {
                assert(window@ == data.subrange(start_offset as int, start_offset + bytes_read));
                assert(spans@ == engine_matches(pat, data.subrange(start_offset as int,
                    start_offset + bytes_read)));
                assert(scan_windows(data, pat, p, start_offset as int, glast, gcount)
                    == scan_in_window(data, pat, p, spans@, 0, start_offset as int,
                    bytes_read as int, glast, gcount));
            }
            let mut k: usize = 0;
            let mut seeked: bool = false;
            while k < spans.len()
                invariant
                    k <= spans@.len(),
                    spans_wf(spans@, bytes_read as nat),
                    bytes_read as int == read_amount(w as int, data.len() - start_offset),
                    1 <= bytes_read <= w,
                    start_offset + bytes_read <= data.len(),
                    data.len() == file_size,
                    file.wf(),
                    file.contents() == data,
                    data == old(file).contents(),
                    file.never_fails() == old(file).never_fails(),
                    self.config == old(self).config,
                    self.buffer_manager.main_buffer@.len() == w as int,
                    self.buffer_manager.main_buffer@.subrange(0, bytes_read as int)
                        == data.subrange(start_offset as int, start_offset + bytes_read),
                    w == old(self).config.spec_buffer_size(width),
                    pad == old(self).config.buffer_padding,
                    pad < w,
                    p == (ScanParams {
                        w: w as nat,
                        pad: pad as nat,
                        width: width as nat,
                        limit: limit as nat,
                        sep: separator@,
                        show: show_offset,
                        hexlen: hex_len(data.len()),
                    }),
                    pat == regex.pattern(),
                    hex_offset_length == hex_len(data.len()),
                    -1 <= glast <= data.len(),
                    glast == (match last_hit {
                        Option::None => -1int,
                        Option::Some(v) => v as int,
                    }),
                    limit > 0 ==> line == gcount && gcount < limit,
                    old(out)@.is_prefix_of(out@),
                    glast0 <= glast,
                    seeked ==> k == spans@.len() && glast0 < glast,
                    !seeked ==> file.cursor() == start_offset + bytes_read,
                    !seeked ==> views_of(old(out)@) + scan_windows(data, pat, p,
                        old(file).cursor(), -1, 0) == views_of(out@) + scan_in_window(data, pat,
                        p, spans@, k as int, start_offset as int, bytes_read as int, glast,
                        gcount),
                    seeked ==> bytes_read == w && file.cursor() == glast && 0 <= glast
                        && views_of(old(out)@) + scan_windows(data, pat, p, old(file).cursor(),
                        -1, 0) == views_of(out@) + scan_windows(data, pat, p, floor0(glast
                        - pad), glast, gcount),
                decreases spans@.len() - k,
            {
                let s = spans[k].0;
                proof {
                    assert(spans@[k as int].0 <= spans@[k as int].1 <= bytes_read);
                }
                let g: u64 = start_offset + (s as u64);
                let is_dup = match last_hit {
                    Option::None => false,
                    Option::Some(lv) => g <= lv,
                };
                if is_dup {
                    proof {
                        assert(scan_in_window(data, pat, p, spans@, k as int,
                            start_offset as int, bytes_read as int, glast, gcount)
                            == scan_in_window(data, pat, p, spans@, k + 1, start_offset as int,
                            bytes_read as int, glast, gcount));
                    }
                    k = k + 1;
                } else if width > bytes_read - s && bytes_read == w {
                    match file.seek_to(g) {
                        Ok(u) => u,
                        Err(e) => {
                            return Err(e);
                        },
                    };
                    last_hit = Some(g);
                    proof {
                        assert(scan_in_window(data, pat, p, spans@, k as int,
                            start_offset as int, bytes_read as int, glast, gcount)
                            == scan_windows(data, pat, p, floor0(g - pad), g as int, gcount));
                        glast = g as int;
                    }
                    seeked = true;
                    k = spans.len();
                } else {
                    let hex_string = match self.read_match_data(file, s, width, bytes_read,
                        start_offset, separator) {
                        Ok(h) => h,
                        Err(e) => {
                            return Err(e);
                        },
                    };
                    let rendered = if show_offset {
                        OutputFormatter::format_line_with_offset(g, hex_string.as_str(),
                            hex_offset_length)
                    } else {
                        hex_string
                    };
                    let ghost prev_out = out@;
                    out.push(rendered);
                    last_hit = Some(g);
                    proof {
                        assert(views_of(out@) =~= views_of(prev_out).push(rendered@));
                        assert(out@.take(old(out)@.len() as int) =~= prev_out.take(
                            old(out)@.len() as int,
                        ));
                        let spec_rest = scan_in_window(data, pat, p, spans@, k as int,
                            start_offset as int, bytes_read as int, glast, gcount);
                        let m = read_amount(width as int, data.len() - g);
                        assert(rendered@ == render_line(g as nat, data.subrange(g as int,
                            g + m), separator@, show_offset, hex_len(data.len())));
                        if limit > 0 && gcount + 1 >= limit as nat {
                            assert(spec_rest =~= seq![rendered@]);
                            assert(views_of(out@) =~= views_of(prev_out) + spec_rest);
                        } else {
                            assert(spec_rest =~= seq![rendered@] + scan_in_window(data, pat, p,
                                spans@, k + 1, start_offset as int, bytes_read as int, g as int,
                                gcount + 1));
                            assert(views_of(prev_out) + spec_rest =~= views_of(out@)
                                + scan_in_window(data, pat, p, spans@, k + 1,
                                start_offset as int, bytes_read as int, g as int, gcount + 1));
                        }
                        glast = g as int;
                        gcount = gcount + 1;
                    }
                    if limit > 0 {
                        line = line + 1;
                        if line >= limit {
                            return Ok(());
                        }
                    }
                    k = k + 1;
                }
            }
            if bytes_read == w {
                let cur = match file.stream_position() {
                    Ok(v) => v,
                    Err(e) => {
                        return Err(e);
                    },
                };
                let pad64 = pad as u64;
                let target = if cur >= pad64 {
                    cur - pad64
                } else {
                    0
                };
                match file.seek_to(target) {
                    Ok(u) => u,
                    Err(e) => {
                        return Err(e);
                    },
                };
                proof {
                    if !seeked {
                        assert(scan_in_window(data, pat, p, spans@, spans@.len() as int,
                            start_offset as int, bytes_read as int, glast, gcount)
                            == scan_windows(data, pat, p, start_offset + bytes_read - pad, glast,
                            gcount));
                        assert(target as int == start_offset + bytes_read - pad);
                    } else {
                        assert(target as int == floor0(glast - pad));
                    }
                }
            } else {
                proof {
                    assert(!seeked);
                    assert(scan_in_window(data, pat, p, spans@, spans@.len() as int,
                        start_offset as int, bytes_read as int, glast, gcount) == scan_windows(
                        data, pat, p, start_offset + bytes_read, glast, gcount));
                }
            }
        }
        Ok(())
    }

    /// The hex text of the display bytes of one match: the `width` bytes
    /// at the match's start, short only at the end of the stream. Bytes
    /// past the filled window are read into the extra buffer and joined
    /// on via the scratch buffer; the stream position is restored
    /// afterwards, and the main window is left untouched.
    fn read_match_data<R: ByteStream>(
        &mut self,
        file: &mut R,
        match_start: usize,
        width: usize,
        bytes_read: usize,
        start_offset: u64,
        separator: &str,
    ) -> (r: Result<String, BingrepError>)
        requires
            old(file).wf(),
            match_start <= bytes_read,
            bytes_read as int <= old(self).buffer_manager.main_buffer@.len(),
            start_offset + bytes_read <= old(file).contents().len(),
            old(file).contents().len() <= u64::MAX,
            old(self).buffer_manager.main_buffer@.subrange(0, bytes_read as int) == old(
                file,
            ).contents().subrange(start_offset as int, start_offset + bytes_read),
            old(file).cursor() == start_offset + bytes_read,
        ensures
            final(file).wf(),
            final(file).contents() == old(file).contents(),
            final(file).never_fails() == old(file).never_fails(),
            final(self).buffer_manager.main_buffer == old(self).buffer_manager.main_buffer,
            final(self).config == old(self).config,
            r is Ok ==> ({
                let g = start_offset + match_start;
                let m = read_amount(width as int, old(file).contents().len() - g);
                &&& r->Ok_0@ == hex_join(
                    old(file).contents().subrange(g, g + m),
                    separator@,
                )
                &&& final(file).cursor() == old(file).cursor()
            }),
            old(file).never_fails() ==> r is Ok,
            r is Err ==> r->Err_0 is Io,
    {
        let ghost data = old(file).contents();
        let ghost g = start_offset + match_start;
        let avail = bytes_read - match_start;
        if width <= avail {
            let slice = self.buffer_manager.get_main_slice(match_start, match_start + width);
            proof {
                let ms = match_start as int;
                let br = bytes_read as int;
                let st = start_offset as int;
                let main0 = self.buffer_manager.main_buffer@;
                assert forall|idx: int| 0 <= idx < width as int implies slice@[idx] == data[g
                    + idx] by {
                    assert(main0.subrange(0, br)[ms + idx] == data.subrange(st, st + br)[ms
                        + idx]);
                }
                assert(slice@ =~= data.subrange(g, g + width));
                assert(read_amount(width as int, data.len() - g) == width as int);
            }
            Ok(OutputFormatter::format_bytes_as_hex(slice, separator))
        } else {
            let current_pos = match file.stream_position() {
                Ok(v) => v,
                Err(e) => {
                    return Err(e);
                },
            };
            let extra_needed = width - avail;
            let extra_read = match self.buffer_manager.read_into_extra(file, extra_needed) {
                Ok(n) => n,
                Err(e) => {
                    return Err(e);
                },
            };
            let ghost main0 = self.buffer_manager.main_buffer@;
            let ghost extra0 = self.buffer_manager.extra_buffer@;
            let combined = self.buffer_manager.combine_buffers(match_start, bytes_read,
                extra_read);
            proof {
                let m = read_amount(width as int, data.len() - g);
                let ms = match_start as int;
                let br = bytes_read as int;
                let st = start_offset as int;
                let er = extra_read as int;
                assert(m == (br - ms) + er);
                assert forall|idx: int| 0 <= idx < br - ms implies main0.subrange(ms, br)[idx]
                    == data[g + idx] by {
                    assert(main0.subrange(0, br)[ms + idx] == data.subrange(st, st + br)[ms
                        + idx]);
                }
                assert(extra0.subrange(0, er) == data.subrange(st + br, st + br + er));
                assert forall|idx: int| br - ms <= idx < m implies (main0.subrange(ms, br)
                    + extra0.subrange(0, er))[idx] == data[g + idx] by {
                    assert(data.subrange(st + br, st + br + er)[idx - (br - ms)] == data[g + idx]);
                }
                assert(combined@ =~= data.subrange(g, g + m));
            }
            let hex = OutputFormatter::format_bytes_as_hex(combined.as_slice(), separator);
            match file.seek_to(current_pos) {
                Ok(()) => Ok(hex),
                Err(e) => Err(e),
            }
        }
    }
}

} // verus!
