//! Text utilities shared by the built-in tools: output truncation by lines
//! and bytes, line numbering, path resolution, and small formatting helpers.
//!
//! All sizes are UTF-8 byte lengths; all line splitting is on `'\n'` with
//! empty pieces kept, as the truncation logic requires.

use unicode_normalization::UnicodeNormalization;
use vstd::prelude::*;
use crate::text::{
    byte_len, char_byte_len, char_utf8_len, chars_byte_len, chars_to_string, first_nl,
    lemma_byte_len_concat, lemma_byte_len_nonneg, lemma_byte_len_singleton,
    lemma_byte_len_subrange, lemma_first_nl, split_lines, split_nl, str_byte_len, str_to_chars,
    vecs_view, chars_eq, chars_eq_str, chars_to_string as to_string_chars, lower_char, str_eq,
};

verus! {

/// Which limit cut the output short.
#[derive(Debug, Clone, Copy, PartialEq, Eq, Structural)]
pub enum TruncatedBy {
    Lines,
    Bytes,
}

/// What a truncation did: the kept text and the counts around it.
#[derive(Debug)]
pub struct TruncationResult {
    pub content: String,
    pub truncated: bool,
    pub truncated_by: Option<TruncatedBy>,
    pub total_lines: usize,
    pub total_bytes: usize,
    pub output_lines: usize,
    pub output_bytes: usize,
    pub last_line_partial: bool,
    pub first_line_exceeds_limit: bool,
    pub max_lines: usize,
    pub max_bytes: usize,
}

/// The pieces joined back with newlines.
pub open spec fn join_nl(lines: Seq<Seq<char>>) -> Seq<char>
    decreases lines.len(),
{
    if lines.len() == 0 {
        Seq::empty()
    } else if lines.len() == 1 {
        lines[0]
    } else {
        lines[0] + seq!['\n'] + join_nl(lines.drop_first())
    }
}

/// Joining one more line appends a separator and the line.
pub proof fn lemma_join_snoc(lines: Seq<Seq<char>>, x: Seq<char>)
    requires
        lines.len() > 0,
    ensures
        join_nl(lines.push(x)) == join_nl(lines) + seq!['\n'] + x,
    decreases lines.len(),
{
    let p = lines.push(x);
    if lines.len() == 1 {
        assert(p.drop_first() =~= seq![x]);
        assert(p[0] == lines[0]);
        assert(join_nl(seq![x]) == x);
        assert(join_nl(p) =~= join_nl(lines) + seq!['\n'] + x);
    } else {
        assert(p.drop_first() =~= lines.drop_first().push(x));
        assert(p[0] == lines[0]);
        lemma_join_snoc(lines.drop_first(), x);
        assert(join_nl(p) =~= join_nl(lines) + seq!['\n'] + x);
    }
}

/// A prefix of the pieces joins to no more bytes than all of them.
pub proof fn lemma_join_take_bytes(lines: Seq<Seq<char>>, k: int)
    requires
        0 <= k <= lines.len(),
    ensures
        byte_len(join_nl(lines.take(k))) <= byte_len(join_nl(lines)),
        byte_len(join_nl(lines.take(k))) >= 0,
    decreases lines.len() - k,
{
    lemma_byte_len_nonneg(join_nl(lines.take(k)));
    if k < lines.len() {
        if k == 0 {
            assert(lines.take(0) =~= Seq::<Seq<char>>::empty());
            lemma_join_take_bytes(lines, 1);
        } else {
            assert(lines.take(k + 1) =~= lines.take(k).push(lines[k]));
            lemma_join_snoc(lines.take(k), lines[k]);
            lemma_byte_len_concat(join_nl(lines.take(k)) + seq!['\n'], lines[k]);
            lemma_byte_len_concat(join_nl(lines.take(k)), seq!['\n']);
            lemma_byte_len_singleton('\n');
            lemma_byte_len_nonneg(lines[k]);
            lemma_join_take_bytes(lines, k + 1);
        }
    } else {
        assert(lines.take(k) =~= lines);
    }
}

/// The split pieces joined give back the text.
pub proof fn lemma_split_join(s: Seq<char>)
    ensures
        join_nl(split_nl(s)) == s,
    decreases s.len(),
{
    lemma_first_nl(s);
    let j = first_nl(s);
    if j == s.len() {
        assert(split_nl(s) == seq![s]);
        assert(join_nl(seq![s]) == s);
    } else {
        let rest = s.skip(j + 1);
        lemma_split_join(rest);
        let parts = seq![s.take(j)] + split_nl(rest);
        assert(split_nl(s) == parts);
        assert(parts[0] == s.take(j));
        assert(parts.drop_first() =~= split_nl(rest));
        assert(split_nl(rest).len() >= 1);
        assert(join_nl(parts) == s.take(j) + seq!['\n'] + join_nl(split_nl(rest)));
        assert(s.take(j) + seq!['\n'] + rest =~= s);
    }
}

/// Every split piece fits within the text's byte length.
pub proof fn lemma_split_piece_bytes(s: Seq<char>, k: int)
    requires
        0 <= k < split_nl(s).len(),
    ensures
        byte_len(split_nl(s)[k]) <= byte_len(s),
    decreases s.len(),
{
    lemma_first_nl(s);
    let j = first_nl(s);
    if j == s.len() {
        lemma_byte_len_subrange(s, 0, j);
        assert(s.subrange(0, j) =~= s.take(j));
    } else {
        let rest = s.skip(j + 1);
        if k == 0 {
            lemma_byte_len_subrange(s, 0, j);
            assert(s.subrange(0, j) =~= s.take(j));
        } else {
            assert((seq![s.take(j)] + split_nl(rest))[k] == split_nl(rest)[k - 1]);
            lemma_split_piece_bytes(rest, k - 1);
            lemma_byte_len_subrange(s, j + 1, s.len() as int);
            assert(s.subrange(j + 1, s.len() as int) =~= rest);
        }
    }
}

/// Join a range of the line vectors with newlines.
fn join_lines(lines: &Vec<Vec<char>>, from: usize, to: usize) -> (r: Vec<char>)
    requires
        from <= to <= lines@.len(),
    ensures
        r@ == join_nl(vecs_view(lines@).subrange(from as int, to as int)),
{
    let mut out: Vec<char> = Vec::new();
    let mut i: usize = from;
    proof {
        assert(vecs_view(lines@).subrange(from as int, from as int)
            =~= Seq::<Seq<char>>::empty());
    }
    while i < to
        invariant
            from <= i <= to <= lines@.len(),
            out@ == join_nl(vecs_view(lines@).subrange(from as int, i as int)),
        decreases to - i,
    {
        proof {
            let lv = vecs_view(lines@);
            assert(lv.subrange(from as int, i + 1) =~= lv.subrange(from as int, i as int).push(
                lv[i as int],
            ));
            if i > from {
                lemma_join_snoc(lv.subrange(from as int, i as int), lv[i as int]);
            } else {
                assert(join_nl(seq![lv[i as int]]) == lv[i as int]);
            }
        }
        if i > from {
            out.push('\n');
        }
        let line = &lines[i];
        let mut k: usize = 0;
        let ghost base = out@;
        while k < line.len()
            invariant
                k <= line@.len(),
                out@ == base + line@.subrange(0, k as int),
            decreases line@.len() - k,
        {
            out.push(line[k]);
            k = k + 1;
            proof {
                assert(out@ =~= base + line@.subrange(0, k as int));
            }
        }
        proof {
            assert(line@.subrange(0, line@.len() as int) =~= line@);
            assert(out@ =~= join_nl(vecs_view(lines@).subrange(from as int, i + 1)));
        }
        i = i + 1;
    }
    out
}

/// How far the head-truncation walks: the count of whole lines kept and the
/// limit that stopped it, starting from line `i` with `used` bytes already
/// spent.
pub open spec fn head_scan(
    lines: Seq<Seq<char>>,
    i: int,
    used: int,
    max_lines: int,
    max_bytes: int,
) -> (int, Option<TruncatedBy>)
    decreases lines.len() - i,
{
    if i < 0 || i >= lines.len() {
        (i, None)
    } else if i >= max_lines {
        (i, Some(TruncatedBy::Lines))
    } else {
        let cost = byte_len(lines[i]) + if i > 0 {
            1int
        } else {
            0int
        };
        if used + cost > max_bytes {
            (i, Some(TruncatedBy::Bytes))
        } else {
            head_scan(lines, i + 1, used + cost, max_lines, max_bytes)
        }
    }
}

/// Keep the first lines of the text that fit the line and byte limits.
///
/// When everything fits, the text passes through untouched. When the first
/// line alone exceeds the byte limit, nothing is kept and the result says
/// so. Otherwise whole lines are kept, with one separator byte charged
/// between lines, until a limit stops the walk.
pub fn truncate_head(content: &str, max_lines: usize, max_bytes: usize) -> (r: TruncationResult)
    ensures
        ({
            let lines = split_nl(content@);
            let scan = head_scan(lines, 0, 0, max_lines as int, max_bytes as int);
            &&& r.total_lines == lines.len()
            &&& r.total_bytes == byte_len(content@)
            &&& r.max_lines == max_lines
            &&& r.max_bytes == max_bytes
            &&& !r.last_line_partial
            &&& if lines.len() <= max_lines && byte_len(content@) <= max_bytes {
                &&& r.content@ == content@
                &&& !r.truncated
                &&& r.truncated_by is None
                &&& r.output_lines == lines.len()
                &&& r.output_bytes == byte_len(content@)
                &&& !r.first_line_exceeds_limit
            } else if byte_len(lines[0]) > max_bytes {
                &&& r.content@ == Seq::<char>::empty()
                &&& r.truncated
                &&& r.truncated_by == Some(TruncatedBy::Bytes)
                &&& r.output_lines == 0
                &&& r.output_bytes == 0
                &&& r.first_line_exceeds_limit
            } else {
                &&& r.content@ == join_nl(lines.take(scan.0))
                &&& r.truncated == (scan.1 is Some)
                &&& r.truncated_by == scan.1
                &&& r.output_lines == scan.0
                &&& r.output_bytes == byte_len(join_nl(lines.take(scan.0)))
                &&& !r.first_line_exceeds_limit
            }
        }),
{
    let chars = str_to_chars(content);
    let total_bytes = str_byte_len(content);
    let lines = split_lines(&chars);
    let total_lines = lines.len();
    proof {
        assert(split_nl(content@).len() >= 1);
    }
    if total_lines <= max_lines && total_bytes <= max_bytes {
        return TruncationResult {
            content: chars_to_string(&chars),
            truncated: false,
            truncated_by: None,
            total_lines,
            total_bytes,
            output_lines: total_lines,
            output_bytes: total_bytes,
            last_line_partial: false,
            first_line_exceeds_limit: false,
            max_lines,
            max_bytes,
        };
    }
    proof {
        lemma_split_piece_bytes(content@, 0);
    }
    let first_line_bytes = chars_byte_len(&lines[0], 0, lines[0].len());
    proof {
        assert(lines@[0]@.subrange(0, lines@[0]@.len() as int) =~= lines@[0]@);
    }
    if first_line_bytes > max_bytes {
        let empty: Vec<char> = Vec::new();
        return TruncationResult {
            content: chars_to_string(&empty),
            truncated: true,
            truncated_by: Some(TruncatedBy::Bytes),
            total_lines,
            total_bytes,
            output_lines: 0,
            output_bytes: 0,
            last_line_partial: false,
            first_line_exceeds_limit: true,
            max_lines,
            max_bytes,
        };
    }
    let ghost lv = vecs_view(lines@);
    let mut i: usize = 0;
    let mut used: usize = 0;
    let mut stop: Option<TruncatedBy> = None;
    proof {
        assert(lv =~= split_nl(content@));
    }
    loop
        invariant
            lines@.len() == lv.len(),
            total_lines == lv.len(),
            total_bytes == byte_len(content@),
            byte_len(content@) <= usize::MAX,
            vecs_view(lines@) == lv,
            lv == split_nl(content@),
            i <= lv.len(),
            used <= max_bytes,
            used == byte_len(join_nl(lv.take(i as int))),
            head_scan(lv, i as int, used as int, max_lines as int, max_bytes as int)
                == head_scan(lv, 0, 0, max_lines as int, max_bytes as int),
        ensures
            lines@.len() == lv.len(),
            vecs_view(lines@) == lv,
            i <= lv.len(),
            used <= max_bytes,
            used == byte_len(join_nl(lv.take(i as int))),
            head_scan(lv, 0, 0, max_lines as int, max_bytes as int) == (i as int, stop),
        decreases lv.len() - i,
    {
        if i >= total_lines {
            stop = None;
            proof {
                assert(head_scan(lv, i as int, used as int, max_lines as int, max_bytes as int)
                    == (i as int, None::<TruncatedBy>));
            }
            break ;
        }
        if i >= max_lines {
            stop = Some(TruncatedBy::Lines);
            proof {
                assert(head_scan(lv, i as int, used as int, max_lines as int, max_bytes as int)
                    == (i as int, Some(TruncatedBy::Lines)));
            }
            break ;
        }
        proof {
            lemma_split_piece_bytes(content@, i as int);
        }
        let lb = chars_byte_len(&lines[i], 0, lines[i].len());
        proof {
            assert(lines@[i as int]@.subrange(0, lines@[i as int]@.len() as int)
                =~= lines@[i as int]@);
        }
        let sep: usize = if i > 0 {
            1
        } else {
            0
        };
        let rem = max_bytes - used;
        if lb > rem || sep > rem - lb {
            stop = Some(TruncatedBy::Bytes);
            proof {
                assert(byte_len(lv[i as int]) == lb);
                assert(head_scan(lv, i as int, used as int, max_lines as int, max_bytes as int)
                    == (i as int, Some(TruncatedBy::Bytes)));
            }
            break ;
        }
        proof {
            assert(lv.take(i + 1) =~= lv.take(i as int).push(lv[i as int]));
            if i > 0 {
                lemma_join_snoc(lv.take(i as int), lv[i as int]);
                lemma_byte_len_concat(join_nl(lv.take(i as int)) + seq!['\n'], lv[i as int]);
                lemma_byte_len_concat(join_nl(lv.take(i as int)), seq!['\n']);
                lemma_byte_len_singleton('\n');
            } else {
                assert(lv.take(0) =~= Seq::<Seq<char>>::empty());
                assert(join_nl(seq![lv[0]]) == lv[0]);
            }
        }
        used = used + lb + sep;
        i = i + 1;
    }
    let out = join_lines(&lines, 0, i);
    proof {
        assert(vecs_view(lines@).subrange(0, i as int) =~= lv.take(i as int));
    }
    TruncationResult {
        content: chars_to_string(&out),
        truncated: stop.is_some(),
        truncated_by: stop,
        total_lines,
        total_bytes,
        output_lines: i,
        output_bytes: used,
        last_line_partial: false,
        first_line_exceeds_limit: false,
        max_lines,
        max_bytes,
    }
}


/// Default maximum lines for truncation.
pub const DEFAULT_MAX_LINES: usize = 2000;

/// Default maximum bytes for truncation.
pub const DEFAULT_MAX_BYTES: usize = 50 * 1024;

/// Maximum line length for grep results.
pub const GREP_MAX_LINE_LENGTH: usize = 500;

/// Default bash timeout in seconds.
pub const DEFAULT_BASH_TIMEOUT: u64 = 120;

/// The longest suffix whose byte length fits the limit.
pub open spec fn suffix_within(s: Seq<char>, max: int) -> Seq<char>
    decreases s.len(),
{
    if s.len() == 0 {
        s
    } else if byte_len(s) <= max {
        s
    } else {
        suffix_within(s.drop_first(), max)
    }
}

/// The longest suffix of a character vector within the byte limit.
pub fn suffix_within_chars(v: &Vec<char>, max_bytes: usize) -> (r: Vec<char>)
    requires
        byte_len(v@) <= usize::MAX,
    ensures
        r@ == suffix_within(v@, max_bytes as int),
{
    let n = v.len();
    let mut rem: usize = chars_byte_len(v, 0, n);
    proof {
        assert(v@.subrange(0, n as int) =~= v@);
        assert(v@.skip(0) =~= v@);
    }
    let mut start: usize = 0;
    while rem > max_bytes && start < n
        invariant
            n == v@.len(),
            start <= n,
            rem == byte_len(v@.skip(start as int)),
            suffix_within(v@, max_bytes as int) == suffix_within(
                v@.skip(start as int),
                max_bytes as int,
            ),
        decreases n - start,
    {
        proof {
            let rest = v@.skip(start as int);
            assert(rest[0] == v@[start as int]);
            assert(rest.drop_first() =~= v@.skip(start + 1));
            lemma_byte_len_nonneg(v@.skip(start + 1));
        }
        rem = rem - char_byte_len(v[start]);
        start = start + 1;
    }
    proof {
        if rem > max_bytes {
            assert(v@.skip(n as int) =~= Seq::<char>::empty());
        }
        assert(suffix_within(v@.skip(start as int), max_bytes as int) == v@.skip(start as int));
    }
    let mut r: Vec<char> = Vec::new();
    let mut i: usize = start;
    while i < n
        invariant
            start <= i <= n,
            n == v@.len(),
            r@ == v@.subrange(start as int, i as int),
        decreases n - i,
    {
        r.push(v[i]);
        i = i + 1;
        proof {
            assert(r@ =~= v@.subrange(start as int, i as int));
        }
    }
    proof {
        assert(v@.subrange(start as int, n as int) =~= v@.skip(start as int));
    }
    r
}

/// Keep the longest suffix of the text that fits the byte limit, cutting at
/// a character boundary.
pub fn truncate_string_to_bytes_from_end(s: &str, max_bytes: usize) -> (r: String)
    ensures
        r@ == suffix_within(s@, max_bytes as int),
{
    let v = str_to_chars(s);
    proof {
        crate::text::lemma_byte_len_encode(s@);
        let b = crate::text::byte_len(s@);
    }
    let total = str_byte_len(s);
    let kept = suffix_within_chars(&v, max_bytes);
    chars_to_string(&kept)
}

/// How far the tail-truncation walks, counting whole lines from the end:
/// the count kept, the limit that stopped it, and whether a partial last
/// line is taken instead.
pub open spec fn tail_scan(
    lines: Seq<Seq<char>>,
    taken: int,
    used: int,
    max_lines: int,
    max_bytes: int,
) -> (int, Option<TruncatedBy>, bool)
    decreases lines.len() - taken,
{
    if taken < 0 || taken >= lines.len() {
        (taken, None, false)
    } else if taken >= max_lines {
        (taken, Some(TruncatedBy::Lines), false)
    } else {
        let idx = lines.len() - 1 - taken;
        let cost = byte_len(lines[idx]) + if taken > 0 {
            1int
        } else {
            0int
        };
        if used + cost > max_bytes {
            if max_bytes - used > 0 && taken == 0 {
                (taken, Some(TruncatedBy::Bytes), true)
            } else {
                (taken, Some(TruncatedBy::Bytes), false)
            }
        } else {
            tail_scan(lines, taken + 1, used + cost, max_lines, max_bytes)
        }
    }
}

/// Keep the last lines of the text that fit the line and byte limits.
///
/// When everything fits, the text passes through untouched. Whole lines are
/// taken from the end, with one separator byte charged between lines, until
/// a limit stops the walk; if not even the last line fits and there is any
/// byte budget, the tail of that line is kept instead and marked partial.
pub fn truncate_tail(content: &str, max_lines: usize, max_bytes: usize) -> (r: TruncationResult)
    ensures
        ({
            let lines = split_nl(content@);
            let scan = tail_scan(lines, 0, 0, max_lines as int, max_bytes as int);
            &&& r.total_lines == lines.len()
            &&& r.total_bytes == byte_len(content@)
            &&& r.max_lines == max_lines
            &&& r.max_bytes == max_bytes
            &&& !r.first_line_exceeds_limit
            &&& if lines.len() <= max_lines && byte_len(content@) <= max_bytes {
                &&& r.content@ == content@
                &&& !r.truncated
                &&& r.truncated_by is None
                &&& r.output_lines == lines.len()
                &&& r.output_bytes == byte_len(content@)
                &&& !r.last_line_partial
            } else if scan.2 {
                &&& r.content@ == suffix_within(lines[lines.len() - 1], max_bytes as int)
                &&& r.truncated
                &&& r.truncated_by == Some(TruncatedBy::Bytes)
                &&& r.output_lines == 1
                &&& r.output_bytes == byte_len(
                    suffix_within(lines[lines.len() - 1], max_bytes as int),
                )
                &&& r.last_line_partial
            } else {
                &&& r.content@ == join_nl(lines.skip(lines.len() - scan.0))
                &&& r.truncated == (scan.1 is Some)
                &&& r.truncated_by == scan.1
                &&& r.output_lines == scan.0
                &&& r.output_bytes == byte_len(join_nl(lines.skip(lines.len() - scan.0)))
                &&& !r.last_line_partial
            }
        }),
{
    let chars = str_to_chars(content);
    let total_bytes = str_byte_len(content);
    let lines = split_lines(&chars);
    let total_lines = lines.len();
    proof {
        assert(split_nl(content@).len() >= 1);
    }
    if total_lines <= max_lines && total_bytes <= max_bytes {
        return TruncationResult {
            content: chars_to_string(&chars),
            truncated: false,
            truncated_by: None,
            total_lines,
            total_bytes,
            output_lines: total_lines,
            output_bytes: total_bytes,
            last_line_partial: false,
            first_line_exceeds_limit: false,
            max_lines,
            max_bytes,
        };
    }
    let ghost lv = vecs_view(lines@);
    let mut taken: usize = 0;
    let mut used: usize = 0;
    let mut stop: Option<TruncatedBy> = None;
    let mut partial = false;
    proof {
        assert(lv =~= split_nl(content@));
        assert(lv.skip(lv.len() as int) =~= Seq::<Seq<char>>::empty());
    }
    loop
        invariant
            lines@.len() == lv.len(),
            total_lines == lv.len(),
            total_bytes == byte_len(content@),
            byte_len(content@) <= usize::MAX,
            vecs_view(lines@) == lv,
            lv == split_nl(content@),
            taken <= lv.len(),
            used <= max_bytes,
            used == byte_len(join_nl(lv.skip(lv.len() - taken as int))),
            tail_scan(lv, taken as int, used as int, max_lines as int, max_bytes as int)
                == tail_scan(lv, 0, 0, max_lines as int, max_bytes as int),
        ensures
            lines@.len() == lv.len(),
            total_lines == lv.len(),
            byte_len(content@) <= usize::MAX,
            vecs_view(lines@) == lv,
            lv == split_nl(content@),
            taken <= lv.len(),
            used == byte_len(join_nl(lv.skip(lv.len() - taken as int))),
            tail_scan(lv, 0, 0, max_lines as int, max_bytes as int) == (
                taken as int,
                stop,
                partial,
            ),
        decreases lv.len() - taken,
    {
        if taken >= total_lines {
            stop = None;
            partial = false;
            proof {
                assert(tail_scan(lv, taken as int, used as int, max_lines as int, max_bytes as int)
                    == (taken as int, None::<TruncatedBy>, false));
            }
            break ;
        }
        if taken >= max_lines {
            stop = Some(TruncatedBy::Lines);
            partial = false;
            proof {
                assert(tail_scan(lv, taken as int, used as int, max_lines as int, max_bytes as int)
                    == (taken as int, Some(TruncatedBy::Lines), false));
            }
            break ;
        }
        let idx = total_lines - 1 - taken;
        proof {
            lemma_split_piece_bytes(content@, idx as int);
        }
        let lb = chars_byte_len(&lines[idx], 0, lines[idx].len());
        proof {
            assert(lines@[idx as int]@.subrange(0, lines@[idx as int]@.len() as int)
                =~= lines@[idx as int]@);
        }
        let sep: usize = if taken > 0 {
            1
        } else {
            0
        };
        let rem = max_bytes - used;
        if lb > rem || sep > rem - lb {
            stop = Some(TruncatedBy::Bytes);
            partial = rem > 0 && taken == 0;
            proof {
                assert(byte_len(lv[idx as int]) == lb);
                assert(tail_scan(lv, taken as int, used as int, max_lines as int, max_bytes as int)
                    == (taken as int, Some(TruncatedBy::Bytes), partial));
            }
            break ;
        }
        proof {
            let p = lv.len() - (taken + 1) as int;
            assert(lv.skip(p)[0] == lv[p]);
            assert(lv.skip(p).drop_first() =~= lv.skip(p + 1));
            if taken > 0 {
                assert(lv.skip(p).len() > 1);
                assert(join_nl(lv.skip(p)) == lv[p] + seq!['\n'] + join_nl(lv.skip(p + 1)));
                lemma_byte_len_concat(lv[p] + seq!['\n'], join_nl(lv.skip(p + 1)));
                lemma_byte_len_concat(lv[p], seq!['\n']);
                lemma_byte_len_singleton('\n');
            } else {
                assert(lv.skip(p).len() == 1);
                assert(join_nl(lv.skip(p)) == lv[p]);
            }
        }
        used = used + lb + sep;
        taken = taken + 1;
    }
    if partial {
        proof {
            lemma_split_piece_bytes(content@, lv.len() - 1);
        }
        let last = &lines[total_lines - 1];
        let kept = suffix_within_chars(last, max_bytes);
        proof {
            lemma_suffix_within_bytes(lines@[total_lines - 1]@, max_bytes as int);
        }
        let out_bytes = chars_byte_len(&kept, 0, kept.len());
        proof {
            assert(kept@.subrange(0, kept@.len() as int) =~= kept@);
        }
        return TruncationResult {
            content: chars_to_string(&kept),
            truncated: true,
            truncated_by: Some(TruncatedBy::Bytes),
            total_lines,
            total_bytes,
            output_lines: 1,
            output_bytes: out_bytes,
            last_line_partial: true,
            first_line_exceeds_limit: false,
            max_lines,
            max_bytes,
        };
    }
    let out = join_lines(&lines, total_lines - taken, total_lines);
    proof {
        assert(vecs_view(lines@).subrange(lv.len() - taken as int, lv.len() as int) =~= lv.skip(
            lv.len() - taken as int,
        ));
    }
    TruncationResult {
        content: chars_to_string(&out),
        truncated: stop.is_some(),
        truncated_by: stop,
        total_lines,
        total_bytes,
        output_lines: taken,
        output_bytes: used,
        last_line_partial: false,
        first_line_exceeds_limit: false,
        max_lines,
        max_bytes,
    }
}

/// A suffix kept within a byte budget is itself within the text's bytes.
pub proof fn lemma_suffix_within_bytes(s: Seq<char>, max: int)
    ensures
        byte_len(suffix_within(s, max)) <= byte_len(s),
        byte_len(suffix_within(s, max)) >= 0,
    decreases s.len(),
{
    lemma_byte_len_nonneg(suffix_within(s, max));
    if s.len() > 0 && byte_len(s) > max {
        lemma_suffix_within_bytes(s.drop_first(), max);
        assert(s =~= seq![s[0]] + s.drop_first());
        lemma_byte_len_concat(seq![s[0]], s.drop_first());
        lemma_byte_len_singleton(s[0]);
    }
}


/// One grep output line after the length cap.
#[derive(Debug, Clone, PartialEq, Eq)]
pub struct TruncateLineResult {
    pub text: String,
    pub was_truncated: bool,
}

/// A line capped at a character count, with a marker when it was cut.
pub open spec fn spec_cap_line(l: Seq<char>, max_chars: int) -> Seq<char> {
    if l.len() <= max_chars {
        l
    } else {
        l.take(max_chars) + "... [truncated]"@
    }
}

/// Cap a single line at a character count, appending a marker when it was
/// cut.
pub fn truncate_line(line: &str, max_chars: usize) -> (r: TruncateLineResult)
    ensures
        r.text@ == spec_cap_line(line@, max_chars as int),
        r.was_truncated == (line@.len() > max_chars),
{
    let v = str_to_chars(line);
    if v.len() <= max_chars {
        TruncateLineResult { text: chars_to_string(&v), was_truncated: false }
    } else {
        let mut prefix: Vec<char> = Vec::new();
        let mut i: usize = 0;
        while i < max_chars
            invariant
                max_chars < v@.len(),
                i <= max_chars,
                prefix@ == v@.subrange(0, i as int),
            decreases max_chars - i,
        {
            prefix.push(v[i]);
            i = i + 1;
            proof {
                assert(prefix@ =~= v@.subrange(0, i as int));
            }
        }
        let mut text = chars_to_string(&prefix);
        text.append("... [truncated]");
        proof {
            assert(v@.subrange(0, max_chars as int) =~= v@.take(max_chars as int));
        }
        TruncateLineResult { text, was_truncated: true }
    }
}

/// A line with one trailing carriage return removed.
pub open spec fn strip_cr(l: Seq<char>) -> Seq<char> {
    if l.len() > 0 && l[l.len() - 1] == '\r' {
        l.drop_last()
    } else {
        l
    }
}

/// The lines of a text as `str::lines` sees them: split at newlines, one
/// trailing empty piece dropped, and a trailing carriage return stripped
/// from each line.
pub open spec fn content_lines(s: Seq<char>) -> Seq<Seq<char>> {
    let ls = split_nl(s);
    let kept = if s.len() == 0 {
        Seq::<Seq<char>>::empty()
    } else if ls.last().len() == 0 {
        ls.drop_last()
    } else {
        ls
    };
    Seq::new(kept.len(), |i: int| strip_cr(kept[i]))
}

/// The numbered rendering of a text's lines.
pub open spec fn spec_numbered_lines(s: Seq<char>, start: int) -> Seq<char> {
    let ls = content_lines(s);
    join_nl(Seq::new(ls.len(), |i: int| crate::text::dec_digits(start + i) + seq!['\t'] + ls[i]))
}

/// Number the lines of a text, tab-separated, starting at `start_line`.
pub fn add_line_numbers(content: &str, start_line: usize) -> (r: String)
    requires
        start_line + split_nl(content@).len() <= usize::MAX,
    ensures
        r@ == spec_numbered_lines(content@, start_line as int),
{
    let chars = str_to_chars(content);
    let mut lines = split_lines(&chars);
    proof {
        assert(split_nl(content@).len() >= 1);
    }
    if chars.len() == 0 {
        let empty: Vec<char> = Vec::new();
        proof {
            assert(content_lines(content@) =~= Seq::<Seq<char>>::empty());
            assert(Seq::new(0, |i: int| crate::text::dec_digits(start_line + i) + seq!['\t']
                + content_lines(content@)[i]) =~= Seq::<Seq<char>>::empty());
        }
        return chars_to_string(&empty);
    }
    let last_is_empty = lines[lines.len() - 1].len() == 0;
    if last_is_empty {
        let ghost before = lines@;
        let _ = lines.pop();
        proof {
            assert(vecs_view(lines@) =~= vecs_view(before).drop_last());
        }
    }
    let ghost kept = vecs_view(lines@);
    proof {
        assert(kept =~= if split_nl(content@).last().len() == 0 {
            split_nl(content@).drop_last()
        } else {
            split_nl(content@)
        });
        assert(kept.len() <= split_nl(content@).len());
    }
    let n = lines.len();
    let mut numbered: Vec<Vec<char>> = Vec::new();
    let mut i: usize = 0;
    while i < n
        invariant
            n == lines@.len(),
            n == kept.len(),
            vecs_view(lines@) == kept,
            start_line + n <= usize::MAX,
            i <= n,
            vecs_view(numbered@) =~= Seq::new(
                i as nat,
                |k: int| crate::text::dec_digits(start_line + k) + seq!['\t'] + strip_cr(kept[k]),
            ),
        decreases n - i,
    {
        let mut row = crate::text::u64_to_chars((start_line + i) as u64);
        row.push('\t');
        let ghost prefix = row@;
        let line = &lines[i];
        let stripped_len = if line.len() > 0 && line[line.len() - 1] == '\r' {
            line.len() - 1
        } else {
            line.len()
        };
        let mut k: usize = 0;
        while k < stripped_len
            invariant
                stripped_len <= line@.len(),
                k <= stripped_len,
                row@ == prefix + line@.subrange(0, k as int),
            decreases stripped_len - k,
        {
            row.push(line[k]);
            k = k + 1;
            proof {
                assert(row@ =~= prefix + line@.subrange(0, k as int));
            }
        }
        proof {
            assert((start_line + i) as u64 as int == start_line + i as int);
            assert(line@.subrange(0, stripped_len as int) =~= strip_cr(kept[i as int]));
            assert(row@ =~= crate::text::dec_digits(start_line + i as int) + seq!['\t']
                + strip_cr(kept[i as int]));
        }
        let ghost row_view = row@;
        let ghost before = numbered@;
        numbered.push(row);
        i = i + 1;
        proof {
            assert(vecs_view(numbered@).drop_last() =~= vecs_view(before));
            assert(vecs_view(numbered@).last() == row_view);
            assert forall|k: int| 0 <= k < i implies vecs_view(numbered@)[k]
                == crate::text::dec_digits(start_line + k) + seq!['\t'] + strip_cr(kept[k]) by {
                if k < i - 1 {
                    assert(vecs_view(numbered@)[k] == vecs_view(before)[k]);
                } else {
                    assert(vecs_view(numbered@)[k] == row_view);
                }
            }
            assert(vecs_view(numbered@) =~= Seq::new(
                i as nat,
                |k: int| crate::text::dec_digits(start_line + k) + seq!['\t'] + strip_cr(kept[k]),
            ));
        }
    }
    let out = join_lines(&numbered, 0, numbered.len());
    proof {
        assert(vecs_view(numbered@).subrange(0, numbered@.len() as int) =~= vecs_view(numbered@));
        assert(content_lines(content@) =~= Seq::new(kept.len(), |i: int| strip_cr(kept[i])));
        assert(Seq::new(n as nat, |k: int| crate::text::dec_digits(start_line + k) + seq!['\t']
            + strip_cr(kept[k])) =~= Seq::new(content_lines(content@).len(), |i: int|
            crate::text::dec_digits(start_line as int + i) + seq!['\t'] + content_lines(
            content@,
        )[i]));
    }
    chars_to_string(&out)
}

/// The whole and tenth parts of `size / unit`, rounded half to even at one
/// decimal place, with the carry applied.
pub open spec fn spec_size_scaled(size: int, unit: int) -> (int, int) {
    let whole = size / unit;
    let rem = size % unit;
    let t10 = rem * 10;
    let frac0 = t10 / unit;
    let rem2 = t10 % unit;
    let frac = if 2 * rem2 > unit || (2 * rem2 == unit && frac0 % 2 == 1) {
        frac0 + 1
    } else {
        frac0
    };
    if frac == 10 {
        (whole + 1, 0)
    } else {
        (whole, frac)
    }
}

/// The human-readable size: bytes up to a kibibyte, then one decimal place
/// with a `K`, `M` or `G` suffix.
pub open spec fn spec_format_size(size: int) -> Seq<char> {
    let gb = 0x40000000int;
    let mb = 0x100000int;
    let kb = 0x400int;
    if size >= gb {
        crate::text::dec_digits(spec_size_scaled(size, gb).0) + seq!['.'] + seq![
            crate::text::digit_char(spec_size_scaled(size, gb).1),
            'G',
        ]
    } else if size >= mb {
        crate::text::dec_digits(spec_size_scaled(size, mb).0) + seq!['.'] + seq![
            crate::text::digit_char(spec_size_scaled(size, mb).1),
            'M',
        ]
    } else if size >= kb {
        crate::text::dec_digits(spec_size_scaled(size, kb).0) + seq!['.'] + seq![
            crate::text::digit_char(spec_size_scaled(size, kb).1),
            'K',
        ]
    } else {
        crate::text::dec_digits(size) + seq!['B']
    }
}

/// One scaled size with suffix.
fn format_scaled(size: u64, unit: u64, suffix: char) -> (r: Vec<char>)
    requires
        1024 <= unit <= 0x40000000,
        size >= unit,
    ensures
        r@ == crate::text::dec_digits(spec_size_scaled(size as int, unit as int).0) + seq!['.']
            + seq![crate::text::digit_char(spec_size_scaled(size as int, unit as int).1), suffix],
{
    let whole = size / unit;
    let rem = size % unit;
    proof {
        vstd::arithmetic::div_mod::lemma_div_is_ordered_by_denominator(size as int, 1024, unit as int);
    }
    let t10 = rem * 10;
    let frac0 = t10 / unit;
    proof {
        assert((t10 as int) < (unit as int) * 10) by (nonlinear_arith)
            requires (rem as int) < (unit as int) && t10 as int == (rem as int) * 10;
        assert((t10 as int) / (unit as int) < 10) by (nonlinear_arith)
            requires (t10 as int) < (unit as int) * 10 && 1024 <= unit as int && 0 <= t10 as int;
    }
    let rem2 = t10 % unit;
    let frac = if 2 * rem2 > unit || (2 * rem2 == unit && frac0 % 2 == 1) {
        frac0 + 1
    } else {
        frac0
    };
    let (whole2, frac2) = if frac == 10 {
        (whole + 1, 0)
    } else {
        (whole, frac)
    };
    let mut out = crate::text::u64_to_chars(whole2);
    out.push('.');
    out.push(((48 + (frac2 as u8)) as u8) as char);
    out.push(suffix);
    proof {
        assert(out@ =~= crate::text::dec_digits(spec_size_scaled(size as int, unit as int).0)
            + seq!['.'] + seq![
            crate::text::digit_char(spec_size_scaled(size as int, unit as int).1),
            suffix,
        ]);
    }
    out
}

/// Format a byte count in human-readable form.
pub fn format_size(size: u64) -> (r: String)
    ensures
        r@ == spec_format_size(size as int),
{
    let out: Vec<char> = if size >= 0x40000000 {
        format_scaled(size, 0x40000000, 'G')
    } else if size >= 0x100000 {
        format_scaled(size, 0x100000, 'M')
    } else if size >= 0x400 {
        format_scaled(size, 0x400, 'K')
    } else {
        let mut v = crate::text::u64_to_chars(size);
        v.push('B');
        proof {
            assert(v@ =~= crate::text::dec_digits(size as int) + seq!['B']);
        }
        v
    };
    chars_to_string(&out)
}


/// The position of the last occurrence of a character, or -1.
pub open spec fn last_index_of(s: Seq<char>, c: char) -> int
    decreases s.len(),
{
    if s.len() == 0 {
        -1
    } else if s[s.len() - 1] == c {
        s.len() - 1
    } else {
        last_index_of(s.drop_last(), c)
    }
}

proof fn lemma_last_index_of(s: Seq<char>, c: char)
    ensures
        -1 <= last_index_of(s, c) < s.len(),
        last_index_of(s, c) >= 0 ==> s[last_index_of(s, c)] == c,
        forall|k: int| last_index_of(s, c) < k < s.len() ==> s[k] != c,
    decreases s.len(),
{
    if s.len() > 0 && s[s.len() - 1] != c {
        lemma_last_index_of(s.drop_last(), c);
        assert(forall|k: int| 0 <= k < s.len() - 1 ==> s.drop_last()[k] == s[k]);
    }
}

/// The position of the last occurrence of a character in a vector, or the
/// length when there is none.
fn rfind_char(v: &Vec<char>, from: usize, c: char) -> (r: Option<usize>)
    requires
        from <= v@.len(),
    ensures
        match r {
            Some(i) => from <= i < v@.len() && last_index_of(v@.skip(from as int), c) == i - from,
            None => last_index_of(v@.skip(from as int), c) == -1,
        },
{
    let n = v.len();
    let mut i: usize = n;
    proof {
        assert(v@.skip(from as int).take(n - from as int) =~= v@.skip(from as int));
    }
    while i > from
        invariant
            from <= i <= n,
            n == v@.len(),
            last_index_of(v@.skip(from as int), c) == last_index_of(
                v@.skip(from as int).take(i - from as int),
                c,
            ),
        decreases i,
    {
        proof {
            let rest = v@.skip(from as int);
            let pre = rest.take(i - from as int);
            assert(pre.drop_last() =~= rest.take(i - 1 - from as int));
            assert(pre.last() == v@[i - 1]);
            assert(forall|k: int| 0 <= k < pre.len() ==> pre[k] == rest[k]);
        }
        if v[i - 1] == c {
            proof {
                let rest = v@.skip(from as int);
                lemma_restricted_last_index(rest, c, i - 1 - from as int);
            }
            return Some(i - 1);
        }
        i = i - 1;
    }
    proof {
        assert(v@.skip(from as int).take(0) =~= Seq::<char>::empty());
    }
    None
}

/// If a suffix-maximal prefix ends in the character, the last index is
/// there.
proof fn lemma_restricted_last_index(s: Seq<char>, c: char, j: int)
    requires
        0 <= j < s.len(),
        s[j] == c,
        last_index_of(s, c) == last_index_of(s.take(j + 1), c),
    ensures
        last_index_of(s, c) == j,
{
    assert(s.take(j + 1).last() == s[j]);
}

/// The file name after the last separator.
pub open spec fn spec_file_name(s: Seq<char>) -> Seq<char> {
    s.skip(last_index_of(s, '/') + 1)
}

/// The extension of a path: the part of the file name after its last dot,
/// absent when there is no dot or the name starts with the dot.
pub open spec fn spec_extension(s: Seq<char>) -> Option<Seq<char>> {
    let name = spec_file_name(s);
    let d = last_index_of(name, '.');
    if d <= 0 {
        None
    } else {
        Some(name.skip(d + 1))
    }
}

/// The path's extension, ASCII-lowered, when it has one.
fn extension_lower(path: &str) -> (r: Option<Vec<char>>)
    ensures
        match r {
            Some(e) => spec_extension(path@) matches Some(x) && e@ == crate::text::spec_lower(x),
            None => spec_extension(path@) is None,
        },
{
    let v = str_to_chars(path);
    let vn = v.len();
    proof {
        lemma_last_index_of(v@, '/');
        assert(v@.skip(0) =~= v@);
    }
    let name_start = match rfind_char(&v, 0, '/') {
        Some(i) => i + 1,
        None => 0,
    };
    proof {
        lemma_last_index_of(v@.skip(name_start as int), '.');
    }
    let dot = rfind_char(&v, name_start, '.');
    match dot {
        None => None,
        Some(d) => {
            if d == name_start {
                None
            } else {
                let n = v.len();
                let mut e: Vec<char> = Vec::new();
                let mut i: usize = d + 1;
                while i < n
                    invariant
                        d + 1 <= i <= n,
                        n == v@.len(),
                        e@.len() == i - d - 1,
                        forall|k: int|
                            0 <= k < e@.len() ==> e@[k] == lower_char(v@[d + 1 + k]),
                    decreases n - i,
                {
                    e.push(crate::text::to_lower_char(v[i]));
                    i = i + 1;
                }
                proof {
                    let name = spec_file_name(path@);
                    assert(name =~= v@.skip(name_start as int));
                    let dd = last_index_of(name, '.');
                    assert(dd == d - name_start as int);
                    assert(name.skip(dd + 1) =~= v@.skip(d + 1));
                    assert(e@ =~= crate::text::spec_lower(v@.skip(d + 1)));
                }
                Some(e)
            }
        },
    }
}

/// The image extensions the read tool recognizes.
pub open spec fn is_image_ext(e: Seq<char>) -> bool {
    e == "jpg"@ || e == "jpeg"@ || e == "png"@ || e == "gif"@ || e == "webp"@ || e == "bmp"@
        || e == "ico"@ || e == "tiff"@ || e == "tif"@
}

/// Whether a path names an image, judged by its extension.
pub fn is_image_file(path: &str) -> (r: bool)
    ensures
        r == match spec_extension(path@) {
            Some(e) => is_image_ext(crate::text::spec_lower(e)),
            None => false,
        },
{
    match extension_lower(path) {
        None => false,
        Some(e) => chars_eq_str(&e, "jpg") || chars_eq_str(&e, "jpeg") || chars_eq_str(&e, "png")
            || chars_eq_str(&e, "gif") || chars_eq_str(&e, "webp") || chars_eq_str(&e, "bmp")
            || chars_eq_str(&e, "ico") || chars_eq_str(&e, "tiff") || chars_eq_str(&e, "tif"),
    }
}

/// The MIME type for an image extension.
pub open spec fn spec_mime(e: Seq<char>) -> Seq<char> {
    if e == "jpg"@ || e == "jpeg"@ {
        "image/jpeg"@
    } else if e == "png"@ {
        "image/png"@
    } else if e == "gif"@ {
        "image/gif"@
    } else if e == "webp"@ {
        "image/webp"@
    } else if e == "bmp"@ {
        "image/bmp"@
    } else if e == "ico"@ {
        "image/x-icon"@
    } else if e == "tiff"@ || e == "tif"@ {
        "image/tiff"@
    } else {
        "application/octet-stream"@
    }
}

/// The MIME type for an image file, judged by its extension.
pub fn image_mime_type(path: &str) -> (r: &'static str)
    ensures
        r@ == match spec_extension(path@) {
            Some(e) => spec_mime(crate::text::spec_lower(e)),
            None => "application/octet-stream"@,
        },
{
    match extension_lower(path) {
        None => "application/octet-stream",
        Some(e) => {
            if chars_eq_str(&e, "jpg") || chars_eq_str(&e, "jpeg") {
                "image/jpeg"
            } else if chars_eq_str(&e, "png") {
                "image/png"
            } else if chars_eq_str(&e, "gif") {
                "image/gif"
            } else if chars_eq_str(&e, "webp") {
                "image/webp"
            } else if chars_eq_str(&e, "bmp") {
                "image/bmp"
            } else if chars_eq_str(&e, "ico") {
                "image/x-icon"
            } else if chars_eq_str(&e, "tiff") || chars_eq_str(&e, "tif") {
                "image/tiff"
            } else {
                "application/octet-stream"
            }
        },
    }
}

/// The special Unicode space characters the path logic folds to a plain
/// space.
pub open spec fn is_special_space(c: char) -> bool {
    c == '\u{00A0}' || c == '\u{202F}' || c == '\u{205F}' || c == '\u{3000}' || ('\u{2000}' <= c
        && c <= '\u{200A}')
}

/// Whether this is one of the special Unicode space characters.
pub fn is_special_unicode_space(c: char) -> (r: bool)
    ensures
        r == is_special_space(c),
{
    c == '\u{00A0}' || c == '\u{202F}' || c == '\u{205F}' || c == '\u{3000}' || ('\u{2000}' <= c
        && c <= '\u{200A}')
}

/// The text with special Unicode spaces folded to plain spaces.
pub open spec fn spec_norm_spaces(s: Seq<char>) -> Seq<char> {
    Seq::new(s.len(), |i: int| if is_special_space(s[i]) { ' ' } else { s[i] })
}

/// Fold special Unicode spaces to plain spaces.
pub fn normalize_unicode_spaces(s: &str) -> (r: String)
    ensures
        r@ == spec_norm_spaces(s@),
{
    let v = str_to_chars(s);
    let n = v.len();
    let mut out: Vec<char> = Vec::new();
    let mut i: usize = 0;
    while i < n
        invariant
            n == v@.len(),
            i <= n,
            out@.len() == i,
            forall|k: int|
                0 <= k < i ==> out@[k] == (if is_special_space(v@[k]) { ' ' } else { v@[k] }),
        decreases n - i,
    {
        let c = v[i];
        if is_special_unicode_space(c) {
            out.push(' ');
        } else {
            out.push(c);
        }
        i = i + 1;
    }
    proof {
        assert(out@ =~= spec_norm_spaces(s@));
    }
    to_string_chars(&out)
}

/// The text with each occurrence of the pattern replaced, scanning left to
/// right without re-examining replacements.
pub open spec fn spec_replace(s: Seq<char>, pat: Seq<char>, to: Seq<char>) -> Seq<char>
    decreases s.len(),
    when pat.len() > 0
{
    if s.len() == 0 {
        s
    } else if s.len() >= pat.len() && s.take(pat.len() as int) == pat {
        to + spec_replace(s.skip(pat.len() as int), pat, to)
    } else {
        seq![s[0]] + spec_replace(s.drop_first(), pat, to)
    }
}

/// Replace every occurrence of a pattern in a character vector.
fn replace_chars(v: &Vec<char>, pat: &Vec<char>, to: &Vec<char>) -> (r: Vec<char>)
    requires
        pat@.len() > 0,
    ensures
        r@ == spec_replace(v@, pat@, to@),
{
    let n = v.len();
    let m = pat.len();
    let mut out: Vec<char> = Vec::new();
    let mut i: usize = 0;
    proof {
        assert(v@.skip(0) =~= v@);
    }
    while i < n
        invariant
            n == v@.len(),
            m == pat@.len(),
            m > 0,
            i <= n,
            spec_replace(v@, pat@, to@) == out@ + spec_replace(v@.skip(i as int), pat@, to@),
        decreases n - i,
    {
        let is_match = if m <= n - i {
            crate::text::chars_contains_at(v, pat, i)
        } else {
            false
        };
        if is_match {
            proof {
                let rest = v@.skip(i as int);
                assert(rest.take(m as int) =~= v@.subrange(i as int, i + m));
                assert(rest.skip(m as int) =~= v@.skip(i + m));
            }
            let mut k: usize = 0;
            let ghost before = out@;
            while k < to.len()
                invariant
                    k <= to@.len(),
                    out@ == before + to@.subrange(0, k as int),
                decreases to@.len() - k,
            {
                out.push(to[k]);
                k = k + 1;
                proof {
                    assert(out@ =~= before + to@.subrange(0, k as int));
                }
            }
            proof {
                assert(to@.subrange(0, to@.len() as int) =~= to@);
            }
            i = i + m;
        } else {
            proof {
                let rest = v@.skip(i as int);
                assert(rest[0] == v@[i as int]);
                assert(rest.drop_first() =~= v@.skip(i + 1));
                if rest.len() >= m {
                    assert(rest.take(m as int) =~= v@.subrange(i as int, i + m));
                }
                assert(out@.push(v@[i as int]) =~= out@ + seq![v@[i as int]]);
            }
            out.push(v[i]);
            i = i + 1;
        }
    }
    proof {
        assert(v@.skip(n as int) =~= Seq::<char>::empty());
    }
    out
}

/// Replace every occurrence of a pattern in a string.
pub fn str_replace(s: &str, pat: &str, to: &str) -> (r: String)
    requires
        pat@.len() > 0,
    ensures
        r@ == spec_replace(s@, pat@, to@),
{
    let sv = str_to_chars(s);
    let pv = str_to_chars(pat);
    let tv = str_to_chars(to);
    let out = replace_chars(&sv, &pv, &tv);
    to_string_chars(&out)
}

/// Rewrite " AM." and " PM." with the narrow no-break space variant that
/// macOS screenshot names use.
pub fn try_mac_os_screenshot_path(file_path: &str) -> (r: String)
    ensures
        r@ == spec_replace(
            spec_replace(file_path@, " AM."@, "\u{202F}AM."@),
            " PM."@,
            "\u{202F}PM."@,
        ),
{
    proof {
        reveal_strlit(" AM.");
        reveal_strlit(" PM.");
    }
    let first = str_replace(file_path, " AM.", "\u{202F}AM.");
    str_replace(first.as_str(), " PM.", "\u{202F}PM.")
}

/// Rewrite straight apostrophes with the curly apostrophe that macOS
/// screenshot names use.
pub fn try_curly_quote_variant(file_path: &str) -> (r: String)
    ensures
        r@ == spec_replace(file_path@, "'"@, "\u{2019}"@),
{
    proof {
        reveal_strlit("'");
    }
    str_replace(file_path, "'", "\u{2019}")
}

/// The canonical decomposition (NFD) of the text.
pub uninterp spec fn nfd_of(s: Seq<char>) -> Seq<char>;

/// Relies on `unicode_normalization`'s `nfd`: the canonical decomposition,
/// a function of the characters alone.
#[verifier::external_body]
pub fn try_nfd_variant(file_path: &str) -> (r: String)
    ensures
        r@ == nfd_of(file_path@),
{
    file_path.nfd().collect()
}


/// Relies on `dirs::home_dir`: the user's home directory, rendered lossily
/// as a string. The value depends on the environment, so nothing is assumed
/// of it.
#[verifier::external_body]
fn home_dir_string() -> Option<String> {
    dirs::home_dir().map(|p| p.to_string_lossy().to_string())
}

/// Tilde expansion against a known home directory: after folding special
/// spaces, a lone `~` becomes the home directory, a leading `~/` is
/// replaced by it with a separator, and anything else passes through; with
/// no home directory known the text only has its spaces folded.
pub open spec fn spec_expand(s: Seq<char>, home: Option<Seq<char>>) -> Seq<char> {
    let n = spec_norm_spaces(s);
    let h = match home {
        Some(h) => h,
        None => "~"@,
    };
    if n.len() == 1 && n[0] == '~' {
        h
    } else if n.len() >= 2 && n[0] == '~' && n[1] == '/' {
        h + "/"@ + n.skip(2)
    } else {
        n
    }
}

/// Expand a leading tilde against an explicit home directory.
pub fn expand_path_with(file_path: &str, home: Option<&str>) -> (r: String)
    ensures
        r@ == spec_expand(file_path@, crate::policy::opt_str_view(home)),
{
    proof {
        reveal_strlit("~");
        reveal_strlit("/");
    }
    let normalized = normalize_unicode_spaces(file_path);
    let n = str_to_chars(normalized.as_str());
    let home_str = match home {
        Some(h) => h,
        None => "~",
    };
    if n.len() == 1 && n[0] == '~' {
        return home_str.to_owned();
    }
    if n.len() >= 2 && n[0] == '~' && n[1] == '/' {
        let mut out = str_to_chars(home_str);
        out.push('/');
        let mut i: usize = 2;
        let ghost base = out@;
        while i < n.len()
            invariant
                2 <= i <= n@.len(),
                out@ == base + n@.subrange(2, i as int),
            decreases n@.len() - i,
        {
            out.push(n[i]);
            i = i + 1;
            proof {
                assert(out@ =~= base + n@.subrange(2, i as int));
            }
        }
        proof {
            assert(base =~= opt_home_view(crate::policy::opt_str_view(home)) + "/"@);
            assert(n@.subrange(2, n@.len() as int) =~= n@.skip(2));
        }
        return to_string_chars(&out);
    }
    normalized
}

/// The home directory a `None` falls back to.
pub open spec fn opt_home_view(home: Option<Seq<char>>) -> Seq<char> {
    match home {
        Some(h) => h,
        None => "~"@,
    }
}

/// Expand a leading tilde against the process's home directory.
pub fn expand_path(file_path: &str) -> (r: String)
    ensures
        exists|home: Option<Seq<char>>| r@ == #[trigger] spec_expand(file_path@, home),
{
    let home = home_dir_string();
    let r = match home {
        Some(h) => expand_path_with(file_path, Some(h.as_str())),
        None => expand_path_with(file_path, None),
    };
    r
}

/// Whether a path string is absolute (Unix style).
pub open spec fn is_absolute_path(s: Seq<char>) -> bool {
    s.len() > 0 && s[0] == '/'
}

/// Resolution against a working directory and a known home directory: the
/// expanded path itself when absolute, else the working directory, a
/// separator, and the expanded path.
pub open spec fn spec_resolve(s: Seq<char>, cwd: Seq<char>, home: Option<Seq<char>>) -> Seq<
    char,
> {
    let e = spec_expand(s, home);
    if is_absolute_path(e) {
        e
    } else {
        cwd + "/"@ + e
    }
}

/// Resolve a path against a working directory with an explicit home
/// directory.
pub fn resolve_to_cwd_with(file_path: &str, cwd: &str, home: Option<&str>) -> (r: String)
    ensures
        r@ == spec_resolve(file_path@, cwd@, crate::policy::opt_str_view(home)),
{
    proof {
        reveal_strlit("/");
    }
    let expanded = expand_path_with(file_path, home);
    let e = str_to_chars(expanded.as_str());
    if e.len() > 0 && e[0] == '/' {
        return expanded;
    }
    let mut out = str_to_chars(cwd);
    out.push('/');
    let ghost base = out@;
    let mut i: usize = 0;
    while i < e.len()
        invariant
            i <= e@.len(),
            out@ == base + e@.subrange(0, i as int),
        decreases e@.len() - i,
    {
        out.push(e[i]);
        i = i + 1;
        proof {
            assert(out@ =~= base + e@.subrange(0, i as int));
        }
    }
    proof {
        assert(base =~= cwd@ + "/"@);
        assert(e@.subrange(0, e@.len() as int) =~= e@);
    }
    to_string_chars(&out)
}

/// Resolve a path against a working directory, expanding a leading tilde
/// against the process's home directory.
pub fn resolve_to_cwd(file_path: &str, cwd: &str) -> (r: String)
    ensures
        exists|home: Option<Seq<char>>| r@ == #[trigger] spec_resolve(file_path@, cwd@, home),
{
    let home = home_dir_string();
    let r = match home {
        Some(h) => resolve_to_cwd_with(file_path, cwd, Some(h.as_str())),
        None => resolve_to_cwd_with(file_path, cwd, None),
    };
    r
}

/// Resolve a file path relative to the current working directory.
pub fn resolve_path(file_path: &str, cwd: &str) -> (r: String)
    ensures
        exists|home: Option<Seq<char>>| r@ == #[trigger] spec_resolve(file_path@, cwd@, home),
{
    resolve_to_cwd(file_path, cwd)
}

/// The candidate paths tried when a file is read: the resolved path first,
/// then the macOS screenshot name variants that differ from it, in the
/// order they are tried.
pub open spec fn spec_read_candidates(resolved: Seq<char>) -> Seq<Seq<char>> {
    let am_pm = spec_replace(
        spec_replace(resolved, " AM."@, "\u{202F}AM."@),
        " PM."@,
        "\u{202F}PM."@,
    );
    let nfd = nfd_of(resolved);
    let curly = spec_replace(resolved, "'"@, "\u{2019}"@);
    let nfd_curly = spec_replace(nfd, "'"@, "\u{2019}"@);
    let base = seq![resolved];
    let s1 = if am_pm != resolved {
        base.push(am_pm)
    } else {
        base
    };
    let s2 = if nfd != resolved {
        s1.push(nfd)
    } else {
        s1
    };
    let s3 = if curly != resolved {
        s2.push(curly)
    } else {
        s2
    };
    if nfd_curly != resolved {
        s3.push(nfd_curly)
    } else {
        s3
    }
}

/// The views of a list of strings.
pub open spec fn strings_view(l: Seq<String>) -> Seq<Seq<char>> {
    Seq::new(l.len(), |i: int| l[i]@)
}

/// The candidate paths for reading a file: the resolved path, then the
/// macOS screenshot name variants that differ from it. The caller reads the
/// first candidate that exists, or the first one if none does.
pub fn read_path_candidates(file_path: &str, cwd: &str) -> (r: Vec<String>)
    ensures
        exists|home: Option<Seq<char>>|
            strings_view(r@) =~= #[trigger] spec_read_candidates(
                spec_resolve(file_path@, cwd@, home),
            ),
        r@.len() >= 1,
{
    let resolved = resolve_to_cwd(file_path, cwd);
    let ghost rv = resolved@;
    let am_pm = try_mac_os_screenshot_path(resolved.as_str());
    let nfd = try_nfd_variant(resolved.as_str());
    let curly = try_curly_quote_variant(resolved.as_str());
    let nfd_curly = try_curly_quote_variant(nfd.as_str());
    let mut out: Vec<String> = Vec::new();
    let keep_am_pm = !str_eq(am_pm.as_str(), resolved.as_str());
    let keep_nfd = !str_eq(nfd.as_str(), resolved.as_str());
    let keep_curly = !str_eq(curly.as_str(), resolved.as_str());
    let keep_nfd_curly = !str_eq(nfd_curly.as_str(), resolved.as_str());
    out.push(resolved);
    if keep_am_pm {
        out.push(am_pm);
    }
    if keep_nfd {
        out.push(nfd);
    }
    if keep_curly {
        out.push(curly);
    }
    if keep_nfd_curly {
        out.push(nfd_curly);
    }
    proof {
        let home = choose|h: Option<Seq<char>>| rv == #[trigger] spec_resolve(
            file_path@,
            cwd@,
            h,
        );
        assert(rv == spec_resolve(file_path@, cwd@, home));
        assert(strings_view(out@) =~= spec_read_candidates(rv));
    }
    out
}

/// Reads file contents with optional line offset and limit; this is its
/// configuration, the pure half of the tool.
#[derive(Debug)]
pub struct ReadTool {
    cwd: String,
}

/// Executes shell commands; the pure half of the tool.
#[derive(Debug)]
pub struct BashTool {
    cwd: String,
}

/// Replaces exact text in a file; the pure half of the tool.
#[derive(Debug)]
pub struct EditTool {
    cwd: String,
}

/// Writes content to a file; the pure half of the tool.
#[derive(Debug)]
pub struct WriteTool {
    cwd: String,
}

/// Searches file contents with patterns; the pure half of the tool.
#[derive(Debug)]
pub struct GrepTool {
    cwd: String,
}

/// Finds files by glob pattern; the pure half of the tool.
#[derive(Debug)]
pub struct FindTool {
    cwd: String,
}

/// Lists directory contents; the pure half of the tool.
#[derive(Debug)]
pub struct LsTool {
    cwd: String,
}

impl ReadTool {
    /// The working directory paths resolve against.
    pub closed spec fn cwd_view(&self) -> Seq<char> {
        self.cwd@
    }

    /// A read tool rooted at the working directory.
    pub fn new(cwd: &str) -> (r: Self)
        ensures
            r.cwd_view() == cwd@,
    {
        ReadTool { cwd: cwd.to_owned() }
    }

    /// The tool's registry name.
    pub fn name(&self) -> (r: &'static str)
        ensures
            r@ == "read"@,
    {
        "read"
    }

    /// The tool's display label.
    pub fn label(&self) -> (r: &'static str)
        ensures
            r@ == "Read File"@,
    {
        "Read File"
    }

    /// The tool's description.
    pub fn description(&self) -> (r: &'static str)
        ensures
            r@ == "Read file contents with optional line offset and limit"@,
    {
        "Read file contents with optional line offset and limit"
    }
}

impl BashTool {
    /// The working directory commands run in.
    pub closed spec fn cwd_view(&self) -> Seq<char> {
        self.cwd@
    }

    /// A bash tool rooted at the working directory.
    pub fn new(cwd: &str) -> (r: Self)
        ensures
            r.cwd_view() == cwd@,
    {
        BashTool { cwd: cwd.to_owned() }
    }

    /// The tool's registry name.
    pub fn name(&self) -> (r: &'static str)
        ensures
            r@ == "bash"@,
    {
        "bash"
    }

    /// The tool's display label.
    pub fn label(&self) -> (r: &'static str)
        ensures
            r@ == "Bash"@,
    {
        "Bash"
    }

    /// The tool's description.
    pub fn description(&self) -> (r: &'static str)
        ensures
            r@ == "Execute bash commands"@,
    {
        "Execute bash commands"
    }
}

impl EditTool {
    /// The working directory paths resolve against.
    pub closed spec fn cwd_view(&self) -> Seq<char> {
        self.cwd@
    }

    /// An edit tool rooted at the working directory.
    pub fn new(cwd: &str) -> (r: Self)
        ensures
            r.cwd_view() == cwd@,
    {
        EditTool { cwd: cwd.to_owned() }
    }

    /// The tool's registry name.
    pub fn name(&self) -> (r: &'static str)
        ensures
            r@ == "edit"@,
    {
        "edit"
    }

    /// The tool's display label.
    pub fn label(&self) -> (r: &'static str)
        ensures
            r@ == "Edit"@,
    {
        "Edit"
    }

    /// The tool's description.
    pub fn description(&self) -> (r: &'static str)
        ensures
            r@ == "Replace exact text in a file"@,
    {
        "Replace exact text in a file"
    }
}

impl WriteTool {
    /// The working directory paths resolve against.
    pub closed spec fn cwd_view(&self) -> Seq<char> {
        self.cwd@
    }

    /// A write tool rooted at the working directory.
    pub fn new(cwd: &str) -> (r: Self)
        ensures
            r.cwd_view() == cwd@,
    {
        WriteTool { cwd: cwd.to_owned() }
    }

    /// The tool's registry name.
    pub fn name(&self) -> (r: &'static str)
        ensures
            r@ == "write"@,
    {
        "write"
    }

    /// The tool's display label.
    pub fn label(&self) -> (r: &'static str)
        ensures
            r@ == "Write"@,
    {
        "Write"
    }

    /// The tool's description.
    pub fn description(&self) -> (r: &'static str)
        ensures
            r@ == "Write content to a file"@,
    {
        "Write content to a file"
    }
}

impl GrepTool {
    /// The working directory searches run under.
    pub closed spec fn cwd_view(&self) -> Seq<char> {
        self.cwd@
    }

    /// A grep tool rooted at the working directory.
    pub fn new(cwd: &str) -> (r: Self)
        ensures
            r.cwd_view() == cwd@,
    {
        GrepTool { cwd: cwd.to_owned() }
    }

    /// The tool's registry name.
    pub fn name(&self) -> (r: &'static str)
        ensures
            r@ == "grep"@,
    {
        "grep"
    }

    /// The tool's display label.
    pub fn label(&self) -> (r: &'static str)
        ensures
            r@ == "Grep"@,
    {
        "Grep"
    }

    /// The tool's description.
    pub fn description(&self) -> (r: &'static str)
        ensures
            r@ == "Search file contents using regex patterns"@,
    {
        "Search file contents using regex patterns"
    }
}

impl FindTool {
    /// The working directory searches run under.
    pub closed spec fn cwd_view(&self) -> Seq<char> {
        self.cwd@
    }

    /// A find tool rooted at the working directory.
    pub fn new(cwd: &str) -> (r: Self)
        ensures
            r.cwd_view() == cwd@,
    {
        FindTool { cwd: cwd.to_owned() }
    }

    /// The tool's registry name.
    pub fn name(&self) -> (r: &'static str)
        ensures
            r@ == "find"@,
    {
        "find"
    }

    /// The tool's display label.
    pub fn label(&self) -> (r: &'static str)
        ensures
            r@ == "Find"@,
    {
        "Find"
    }

    /// The tool's description.
    pub fn description(&self) -> (r: &'static str)
        ensures
            r@ == "Find files by glob pattern"@,
    {
        "Find files by glob pattern"
    }
}

impl LsTool {
    /// The working directory listings resolve against.
    pub closed spec fn cwd_view(&self) -> Seq<char> {
        self.cwd@
    }

    /// A listing tool rooted at the working directory.
    pub fn new(cwd: &str) -> (r: Self)
        ensures
            r.cwd_view() == cwd@,
    {
        LsTool { cwd: cwd.to_owned() }
    }

    /// The tool's registry name.
    pub fn name(&self) -> (r: &'static str)
        ensures
            r@ == "ls"@,
    {
        "ls"
    }

    /// The tool's display label.
    pub fn label(&self) -> (r: &'static str)
        ensures
            r@ == "List"@,
    {
        "List"
    }

    /// The tool's description.
    pub fn description(&self) -> (r: &'static str)
        ensures
            r@ == "List directory contents"@,
    {
        "List directory contents"
    }
}


/// The first differing position at or after `i`: lines of the old text
/// are skipped while they differ from the new text's line `j` (or the new
/// text is exhausted).
pub open spec fn diff_adv_old(o: Seq<Seq<char>>, n: Seq<Seq<char>>, i: int, j: int) -> int
    decreases o.len() - i,
{
    if i < o.len() && (j >= n.len() || o[i] != n[j]) {
        diff_adv_old(o, n, i + 1, j)
    } else {
        i
    }
}

/// Lines of the new text are skipped while they differ from the old
/// text's line `i` (or the old text is exhausted).
pub open spec fn diff_adv_new(o: Seq<Seq<char>>, n: Seq<Seq<char>>, i: int, j: int) -> int
    decreases n.len() - j,
{
    if j < n.len() && (i >= o.len() || n[j] != o[i]) {
        diff_adv_new(o, n, i, j + 1)
    } else {
        j
    }
}

proof fn lemma_diff_adv_old_bounds(o: Seq<Seq<char>>, n: Seq<Seq<char>>, i: int, j: int)
    requires
        0 <= i <= o.len(),
    ensures
        i <= diff_adv_old(o, n, i, j) <= o.len(),
    decreases o.len() - i,
{
    if i < o.len() && (j >= n.len() || o[i] != n[j]) {
        lemma_diff_adv_old_bounds(o, n, i + 1, j);
    }
}

proof fn lemma_diff_adv_new_bounds(o: Seq<Seq<char>>, n: Seq<Seq<char>>, i: int, j: int)
    requires
        0 <= j <= n.len(),
    ensures
        j <= diff_adv_new(o, n, i, j) <= n.len(),
    decreases n.len() - j,
{
    if j < n.len() && (i >= o.len() || n[j] != o[i]) {
        lemma_diff_adv_new_bounds(o, n, i, j + 1);
    }
}

/// The removed lines of a hunk, each on a `-` line.
pub open spec fn diff_minus(o: Seq<Seq<char>>, i: int, i2: int) -> Seq<char>
    decreases i2 - i,
{
    if i >= i2 {
        Seq::empty()
    } else {
        "-"@ + o[i] + "\n"@ + diff_minus(o, i + 1, i2)
    }
}

/// The added lines of a hunk, each on a `+` line.
pub open spec fn diff_plus(n: Seq<Seq<char>>, j: int, j2: int) -> Seq<char>
    decreases j2 - j,
{
    if j >= j2 {
        Seq::empty()
    } else {
        "+"@ + n[j] + "\n"@ + diff_plus(n, j + 1, j2)
    }
}

/// A hunk's header line, with one-based positions and counts.
pub open spec fn diff_hunk_header(os: int, oc: int, ns: int, nc: int) -> Seq<char> {
    "@@ -"@ + crate::text::dec_digits(os + 1) + ","@ + crate::text::dec_digits(oc) + " +"@
        + crate::text::dec_digits(ns + 1) + ","@ + crate::text::dec_digits(nc) + " @@\n"@
}

/// The diff body from position `(i, j)` on: equal lines are consumed
/// silently; at a difference, the differing stretches of both sides form
/// one hunk, and the walk continues after them.
pub open spec fn spec_diff_rest(o: Seq<Seq<char>>, n: Seq<Seq<char>>, i: int, j: int) -> Seq<
    char,
>
    decreases o.len() - i + n.len() - j when 0 <= i && i <= o.len() && 0 <= j && j <= n.len()
    via spec_diff_rest_decreases
{
    if i >= o.len() && j >= n.len() {
        Seq::empty()
    } else if i < o.len() && j < n.len() && o[i] == n[j] {
        spec_diff_rest(o, n, i + 1, j + 1)
    } else {
        let i2 = diff_adv_old(o, n, i, j);
        let j2 = diff_adv_new(o, n, i2, j);
        diff_hunk_header(i, i2 - i, j, j2 - j) + diff_minus(o, i, i2) + diff_plus(n, j, j2)
            + spec_diff_rest(o, n, i2, j2)
    }
}

#[via_fn]
proof fn spec_diff_rest_decreases(o: Seq<Seq<char>>, n: Seq<Seq<char>>, i: int, j: int) {
    if !(i >= o.len() && j >= n.len()) && !(i < o.len() && j < n.len() && o[i] == n[j]) {
        let i2 = diff_adv_old(o, n, i, j);
        let j2 = diff_adv_new(o, n, i2, j);
        if i < o.len() && (j >= n.len() || o[i] != n[j]) {
            assert(i2 == diff_adv_old(o, n, i + 1, j));
            lemma_diff_adv_old_bounds(o, n, i + 1, j);
            assert(i2 >= i + 1);
            lemma_diff_adv_new_bounds(o, n, i2, j);
            assert(j2 >= j);
            assert((o.len() - i2) + (n.len() - j2) < (o.len() - i) + (n.len() - j));
        } else {
            assert(i >= o.len());
            assert(i2 == i);
            assert(j < n.len());
            assert(j2 == diff_adv_new(o, n, i2, j + 1));
            lemma_diff_adv_new_bounds(o, n, i2, j + 1);
            assert(j2 >= j + 1);
            assert((o.len() - i2) + (n.len() - j2) < (o.len() - i) + (n.len() - j));
        }
    }
}

/// The whole diff: the two file headers, then the hunks.
pub open spec fn spec_diff(old: Seq<char>, new: Seq<char>, path: Seq<char>) -> Seq<char> {
    "--- a/"@ + path + "\n+++ b/"@ + path + "\n"@ + spec_diff_rest(
        content_lines(old),
        content_lines(new),
        0,
        0,
    )
}

/// The lines of a text as vectors, as `str::lines` splits them.
fn content_lines_vec(s: &str) -> (r: Vec<Vec<char>>)
    ensures
        vecs_view(r@) =~= content_lines(s@),
{
    let chars = str_to_chars(s);
    let mut lines = split_lines(&chars);
    proof {
        assert(split_nl(s@).len() >= 1);
    }
    if chars.len() == 0 {
        let r: Vec<Vec<char>> = Vec::new();
        proof {
            assert(content_lines(s@) =~= Seq::<Seq<char>>::empty());
        }
        return r;
    }
    if lines[lines.len() - 1].len() == 0 {
        let ghost before = lines@;
        let _ = lines.pop();
        proof {
            assert(vecs_view(lines@) =~= vecs_view(before).drop_last());
        }
    }
    let ghost kept = vecs_view(lines@);
    let m = lines.len();
    let mut r: Vec<Vec<char>> = Vec::new();
    let mut i: usize = 0;
    while i < m
        invariant
            m == lines@.len(),
            m == kept.len(),
            vecs_view(lines@) == kept,
            i <= m,
            vecs_view(r@) =~= Seq::new(i as nat, |k: int| strip_cr(kept[k])),
        decreases m - i,
    {
        let line = &lines[i];
        let stripped_len = if line.len() > 0 && line[line.len() - 1] == '\r' {
            line.len() - 1
        } else {
            line.len()
        };
        let mut stripped: Vec<char> = Vec::new();
        let mut k: usize = 0;
        while k < stripped_len
            invariant
                stripped_len <= line@.len(),
                k <= stripped_len,
                stripped@ == line@.subrange(0, k as int),
            decreases stripped_len - k,
        {
            stripped.push(line[k]);
            k = k + 1;
            proof {
                assert(stripped@ =~= line@.subrange(0, k as int));
            }
        }
        proof {
            assert(stripped@ =~= strip_cr(kept[i as int]));
        }
        let ghost sv = stripped@;
        let ghost before = vecs_view(r@);
        r.push(stripped);
        i = i + 1;
        proof {
            assert(vecs_view(r@).drop_last() =~= before);
            assert(vecs_view(r@).last() == sv);
            assert forall|q: int| 0 <= q < i implies vecs_view(r@)[q] == strip_cr(kept[q]) by {
                if q < i - 1 {
                    assert(vecs_view(r@)[q] == before[q]);
                } else {
                    assert(vecs_view(r@)[q] == sv);
                }
            }
            assert(vecs_view(r@) =~= Seq::new(i as nat, |k: int| strip_cr(kept[k])));
        }
    }
    proof {
        assert(content_lines(s@) =~= Seq::new(kept.len(), |k: int| strip_cr(kept[k])));
    }
    r
}

/// Compute a line-by-line unified diff between two texts: equal lines are
/// consumed, and each differing stretch becomes one remove-then-add hunk.
#[verifier::rlimit(100)]
pub fn compute_diff(old: &str, new: &str, path: &str) -> (r: String)
    requires
        split_nl(old@).len() < usize::MAX,
        split_nl(new@).len() < usize::MAX,
    ensures
        r@ == spec_diff(old@, new@, path@),
{
    let olines = content_lines_vec(old);
    let nlines = content_lines_vec(new);
    let ghost lo = content_lines(old@);
    let ghost ln = content_lines(new@);
    proof {
        assert(lo.len() <= split_nl(old@).len());
        assert(ln.len() <= split_nl(new@).len());
    }
    let on = olines.len();
    let nn = nlines.len();
    let mut out = String::new();
    out.append("--- a/");
    out.append(path);
    out.append("\n+++ b/");
    out.append(path);
    out.append("\n");
    let mut i: usize = 0;
    let mut j: usize = 0;
    while i < on || j < nn
        invariant
            on == lo.len(),
            nn == ln.len(),
            on < usize::MAX,
            nn < usize::MAX,
            vecs_view(olines@) == lo,
            vecs_view(nlines@) == ln,
            olines@.len() == on,
            nlines@.len() == nn,
            i <= on,
            j <= nn,
            spec_diff(old@, new@, path@) == out@ + spec_diff_rest(lo, ln, i as int, j as int),
        decreases on - i + nn - j,
    {
        let lines_equal = if i < on && j < nn {
            crate::text::chars_eq(&olines[i], &nlines[j])
        } else {
            false
        };
        if lines_equal {
            i = i + 1;
            j = j + 1;
        } else {
            let ghost gi = i as int;
            let ghost gj = j as int;
            let mut i2: usize = i;
            while i2 < on && (j >= nn || !crate::text::chars_eq(&olines[i2], &nlines[j]))
                invariant
                    on == lo.len(),
                    nn == ln.len(),
                    vecs_view(olines@) == lo,
                    vecs_view(nlines@) == ln,
                    olines@.len() == on,
                    nlines@.len() == nn,
                    i <= i2 <= on,
                    j <= nn,
                    gi == i,
                    gj == j,
                    diff_adv_old(lo, ln, i2 as int, gj) == diff_adv_old(lo, ln, gi, gj),
                decreases on - i2,
            {
                i2 = i2 + 1;
            }
            proof {
                assert(diff_adv_old(lo, ln, i2 as int, gj) == i2 as int);
            }
            let mut j2: usize = j;
            while j2 < nn && (i2 >= on || !crate::text::chars_eq(&nlines[j2], &olines[i2]))
                invariant
                    on == lo.len(),
                    nn == ln.len(),
                    vecs_view(olines@) == lo,
                    vecs_view(nlines@) == ln,
                    olines@.len() == on,
                    nlines@.len() == nn,
                    i <= i2 <= on,
                    j <= j2 <= nn,
                    gi == i,
                    gj == j,
                    i2 as int == diff_adv_old(lo, ln, gi, gj),
                    diff_adv_new(lo, ln, i2 as int, j2 as int) == diff_adv_new(
                        lo,
                        ln,
                        i2 as int,
                        gj,
                    ),
                decreases nn - j2,
            {
                j2 = j2 + 1;
            }
            proof {
                assert(diff_adv_new(lo, ln, i2 as int, j2 as int) == j2 as int);
            }
            out.append("@@ -");
            let d1 = crate::text::u64_to_string((i + 1) as u64);
            out.append(d1.as_str());
            out.append(",");
            let d2 = crate::text::u64_to_string((i2 - i) as u64);
            out.append(d2.as_str());
            out.append(" +");
            let d3 = crate::text::u64_to_string((j + 1) as u64);
            out.append(d3.as_str());
            out.append(",");
            let d4 = crate::text::u64_to_string((j2 - j) as u64);
            out.append(d4.as_str());
            out.append(" @@\n");
            proof {
                assert((i + 1) as u64 as int == gi + 1);
                assert((i2 - i) as u64 as int == i2 - gi);
                assert((j + 1) as u64 as int == gj + 1);
                assert((j2 - j) as u64 as int == j2 - gj);
            }
            let mut k: usize = i;
            while k < i2
                invariant
                    on == lo.len(),
                    vecs_view(olines@) == lo,
                    olines@.len() == on,
                    i <= k <= i2 <= on,
                    spec_diff(old@, new@, path@) == out@ + diff_minus(lo, k as int, i2 as int)
                        + diff_plus(ln, gj, j2 as int) + spec_diff_rest(
                        lo,
                        ln,
                        i2 as int,
                        j2 as int,
                    ),
                    nn == ln.len(),
                    vecs_view(nlines@) == ln,
                    nlines@.len() == nn,
                    j <= j2 <= nn,
                    gj == j,
                decreases i2 - k,
            {
                out.append("-");
                let line = crate::text::chars_to_string(&olines[k]);
                out.append(line.as_str());
                out.append("\n");
                k = k + 1;
            }
            let mut l: usize = j;
            while l < j2
                invariant
                    nn == ln.len(),
                    vecs_view(nlines@) == ln,
                    nlines@.len() == nn,
                    j <= l <= j2 <= nn,
                    spec_diff(old@, new@, path@) == out@ + diff_plus(ln, l as int, j2 as int)
                        + spec_diff_rest(lo, ln, i2 as int, j2 as int),
                decreases j2 - l,
            {
                out.append("+");
                let line = crate::text::chars_to_string(&nlines[l]);
                out.append(line.as_str());
                out.append("\n");
                l = l + 1;
            }
            i = i2;
            j = j2;
        }
    }
    proof {
        assert(spec_diff_rest(lo, ln, i as int, j as int) =~= Seq::<char>::empty());
    }
    out
}


/// One directory entry as the listing tool sees it: name, whether it is a
/// directory, and its size in bytes.
#[derive(Debug)]
pub struct LsEntry {
    pub name: String,
    pub is_dir: bool,
    pub size: u64,
}

/// Strict lexicographic order on character sequences, by code point.
pub open spec fn lex_lt(a: Seq<char>, b: Seq<char>) -> bool
    decreases a.len(),
{
    if b.len() == 0 {
        false
    } else if a.len() == 0 {
        true
    } else if a[0] != b[0] {
        (a[0] as u32) < (b[0] as u32)
    } else {
        lex_lt(a.drop_first(), b.drop_first())
    }
}

/// The listing order: directories before files, then names compared
/// case-insensitively (ASCII folding).
pub open spec fn spec_ls_before(a: &LsEntry, b: &LsEntry) -> bool {
    if a.is_dir != b.is_dir {
        a.is_dir
    } else {
        lex_lt(crate::text::spec_lower(a.name@), crate::text::spec_lower(b.name@))
    }
}

/// Compare two character vectors lexicographically.
fn chars_lex_lt(a: &Vec<char>, b: &Vec<char>) -> (r: bool)
    ensures
        r == lex_lt(a@, b@),
{
    let an = a.len();
    let bn = b.len();
    let mut i: usize = 0;
    proof {
        assert(a@.skip(0) =~= a@);
        assert(b@.skip(0) =~= b@);
    }
    while i < an && i < bn
        invariant
            an == a@.len(),
            bn == b@.len(),
            i <= an,
            i <= bn,
            lex_lt(a@, b@) == lex_lt(a@.skip(i as int), b@.skip(i as int)),
        decreases an - i,
    {
        proof {
            let ra = a@.skip(i as int);
            let rb = b@.skip(i as int);
            assert(ra[0] == a@[i as int]);
            assert(rb[0] == b@[i as int]);
            assert(ra.drop_first() =~= a@.skip(i + 1));
            assert(rb.drop_first() =~= b@.skip(i + 1));
        }
        if a[i] != b[i] {
            return (a[i] as u32) < (b[i] as u32);
        }
        i = i + 1;
    }
    proof {
        if i >= bn {
            assert(b@.skip(i as int) =~= Seq::<char>::empty());
        } else {
            assert(a@.skip(i as int) =~= Seq::<char>::empty());
            assert(b@.skip(i as int).len() > 0);
        }
    }
    i < bn
}

/// Whether one entry sorts before another in the listing.
fn ls_before(a: &LsEntry, b: &LsEntry) -> (r: bool)
    ensures
        r == spec_ls_before(a, b),
{
    if a.is_dir != b.is_dir {
        a.is_dir
    } else {
        let la = lower_name(a);
        let lb = lower_name(b);
        chars_lex_lt(&la, &lb)
    }
}

/// A name's characters, ASCII-lowered.
fn lower_name(e: &LsEntry) -> (r: Vec<char>)
    ensures
        r@ == crate::text::spec_lower(e.name@),
{
    let v = str_to_chars(e.name.as_str());
    let n = v.len();
    let mut out: Vec<char> = Vec::new();
    let mut i: usize = 0;
    while i < n
        invariant
            n == v@.len(),
            i <= n,
            out@.len() == i,
            forall|k: int| 0 <= k < i ==> out@[k] == crate::text::lower_char(v@[k]),
        decreases n - i,
    {
        out.push(crate::text::to_lower_char(v[i]));
        i = i + 1;
    }
    proof {
        assert(out@ =~= crate::text::spec_lower(e.name@));
    }
    out
}

/// No sequence is lexicographically below itself.
proof fn lemma_lex_lt_irrefl(s: Seq<char>)
    ensures
        !lex_lt(s, s),
    decreases s.len(),
{
    if s.len() > 0 {
        lemma_lex_lt_irrefl(s.drop_first());
    }
}

/// No entry sorts before itself.
proof fn lemma_ls_before_irrefl(e: &LsEntry)
    ensures
        !spec_ls_before(e, e),
{
    lemma_lex_lt_irrefl(crate::text::spec_lower(e.name@));
}

/// The position of an entry no other entry sorts before.
fn ls_first_idx(v: &Vec<LsEntry>) -> (r: usize)
    requires
        v@.len() > 0,
    ensures
        r < v@.len(),
        forall|j: int| 0 <= j < v@.len() ==> !spec_ls_before(&v@[j], &v@[r as int]),
{
    let n = v.len();
    let mut best: usize = 0;
    let mut i: usize = 1;
    proof {
        lemma_ls_before_irrefl(&v@[0]);
    }
    while i < n
        invariant
            n == v@.len(),
            best < i <= n,
            forall|j: int| 0 <= j < i ==> !spec_ls_before(&v@[j], &v@[best as int]),
        decreases n - i,
    {
        if ls_before(&v[i], &v[best]) {
            proof {
                assert forall|j: int| 0 <= j < i + 1 implies !spec_ls_before(
                    &v@[j],
                    &v@[i as int],
                ) by {
                    if j < i {
                        lemma_ls_before_exchange(&v@[j], &v@[best as int], &v@[i as int]);
                    } else {
                        lemma_ls_before_irrefl(&v@[i as int]);
                    }
                }
            }
            best = i;
        } else {
            proof {
                lemma_ls_before_irrefl(&v@[i as int]);
            }
        }
        i = i + 1;
    }
    best
}

/// If nothing sorts before `b`, and `c` sorts before `b`, then nothing
/// that does not sort before `b` sorts before `c` either.
proof fn lemma_ls_before_exchange(a: &LsEntry, b: &LsEntry, c: &LsEntry)
    requires
        !spec_ls_before(a, b),
        spec_ls_before(c, b),
    ensures
        !spec_ls_before(a, c),
{
    if a.is_dir == b.is_dir && b.is_dir == c.is_dir {
        lemma_lex_lt_exchange(
            crate::text::spec_lower(a.name@),
            crate::text::spec_lower(b.name@),
            crate::text::spec_lower(c.name@),
        );
    }
}

/// Lexicographic order: if `a` is not below `b` and `c` is below `b`,
/// then `a` is not below `c`.
proof fn lemma_lex_lt_exchange(a: Seq<char>, b: Seq<char>, c: Seq<char>)
    requires
        !lex_lt(a, b),
        lex_lt(c, b),
    ensures
        !lex_lt(a, c),
    decreases a.len() + b.len() + c.len(),
{
    if lex_lt(a, c) {
        if a.len() == 0 {
            assert(c.len() > 0);
            assert(b.len() > 0);
            assert(lex_lt(a, b));
        } else if c.len() == 0 {
            assert(!lex_lt(a, c));
        } else {
            assert(b.len() > 0);
            if a[0] == c[0] {
                if c[0] == b[0] {
                    lemma_lex_lt_exchange(a.drop_first(), b.drop_first(), c.drop_first());
                } else {
                    assert((c[0] as u32) < (b[0] as u32));
                    assert(lex_lt(a, b));
                }
            } else {
                assert((a[0] as u32) < (c[0] as u32));
                if c[0] == b[0] {
                    assert(lex_lt(a, b));
                } else {
                    assert((c[0] as u32) < (b[0] as u32));
                    assert(lex_lt(a, b));
                }
            }
        }
    }
}

/// Order directory entries for the listing: directories first, then names
/// case-insensitively; entries drawn from the given ones, at most
/// `limit` kept.
pub fn sort_ls_entries(entries: Vec<LsEntry>, limit: usize) -> (r: Vec<LsEntry>)
    ensures
        forall|i: int, j: int| 0 <= i < j < r@.len() ==> !spec_ls_before(&r@[j], &r@[i]),
        r@.len() == if entries@.len() <= limit {
            entries@.len() as int
        } else {
            limit as int
        },
        forall|i: int| 0 <= i < r@.len() ==> entries@.contains(#[trigger] r@[i]),
{
    let mut work = entries;
    let ghost orig = work@;
    let mut out: Vec<LsEntry> = Vec::new();
    proof {
        assert(forall|j: int| 0 <= j < orig.len() ==> orig.contains(#[trigger] orig[j]));
    }
    while work.len() > 0 && out.len() < limit
        invariant
            out@.len() + work@.len() == orig.len(),
            out@.len() <= limit,
            forall|i: int, j: int| 0 <= i < j < out@.len() ==> !spec_ls_before(&out@[j], &out@[i]),
            forall|i: int, j: int|
                0 <= i < out@.len() && 0 <= j < work@.len() ==> !spec_ls_before(
                    &work@[j],
                    &out@[i],
                ),
            forall|i: int| 0 <= i < out@.len() ==> orig.contains(#[trigger] out@[i]),
            forall|j: int| 0 <= j < work@.len() ==> orig.contains(#[trigger] work@[j]),
        decreases work@.len(),
    {
        let idx = ls_first_idx(&work);
        let ghost w_pre = work@;
        let picked = work.remove(idx);
        proof {
            assert(orig.contains(picked));
            assert forall|j: int| 0 <= j < work@.len() implies orig.contains(
                #[trigger] work@[j],
            ) && !spec_ls_before(&work@[j], &picked) by {
                if j < idx {
                    assert(work@[j] == w_pre[j]);
                } else {
                    assert(work@[j] == w_pre[j + 1]);
                }
            }
        }
        let ghost o_pre = out@;
        out.push(picked);
        proof {
            assert(out@.drop_last() =~= o_pre);
        }
    }
    out
}

/// Spaces to left-pad a text to the given width.
pub open spec fn spec_pad_left(s: Seq<char>, width: int) -> Seq<char> {
    if s.len() >= width {
        s
    } else {
        Seq::new((width - s.len()) as nat, |k: int| ' ') + s
    }
}

/// One listing row: a directory as `name/`, a file as its size
/// right-aligned in eight columns, two spaces, and the name.
pub open spec fn spec_ls_row(e: &LsEntry) -> Seq<char> {
    if e.is_dir {
        e.name@ + "/"@
    } else {
        spec_pad_left(spec_format_size(e.size as int), 8) + "  "@ + e.name@
    }
}

/// Render one listing row.
pub fn ls_row(e: &LsEntry) -> (r: String)
    ensures
        r@ == spec_ls_row(e),
{
    let mut out = String::new();
    if e.is_dir {
        out.append(e.name.as_str());
        out.append("/");
        return out;
    }
    let size = format_size(e.size);
    let size_chars = str_to_chars(size.as_str());
    let width = size_chars.len();
    let mut pad: usize = 0;
    if width < 8 {
        pad = 8 - width;
    }
    let mut i: usize = 0;
    proof {
        reveal_strlit(" ");
        assert(out@ =~= Seq::new(0nat, |k: int| ' '));
    }
    while i < pad
        invariant
            i <= pad,
            out@ =~= Seq::new(i as nat, |k: int| ' '),
        decreases pad - i,
    {
        out.append(" ");
        i = i + 1;
        proof {
            reveal_strlit(" ");
            assert(out@ =~= Seq::new(i as nat, |k: int| ' '));
        }
    }
    out.append(size.as_str());
    out.append("  ");
    out.append(e.name.as_str());
    proof {
        assert(out@ =~= spec_ls_row(e));
    }
    out
}

} // verus!
