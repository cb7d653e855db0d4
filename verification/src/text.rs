//! Character-level string utilities shared across the library.
//!
//! Strings are modelled by their view, a `Seq<char>`. The executable code
//! works over `Vec<char>` so that every step is verified; the only trusted
//! step is the final collection of characters back into a `String`.

use vstd::prelude::*;

verus! {

/// The needle occurs in the haystack starting at position `i`.
pub open spec fn spec_contains_at(hay: Seq<char>, needle: Seq<char>, i: int) -> bool {
    0 <= i && i + needle.len() <= hay.len() && hay.subrange(i, i + needle.len()) == needle
}

/// The needle occurs somewhere in the haystack.
pub open spec fn spec_contains(hay: Seq<char>, needle: Seq<char>) -> bool {
    exists|i: int| spec_contains_at(hay, needle, i)
}

/// Collect the characters of a string slice into a vector.
pub fn str_to_chars(s: &str) -> (v: Vec<char>)
    ensures
        v@ == s@,
{
    let n = s.unicode_len();
    let mut v: Vec<char> = Vec::new();
    let mut i: usize = 0;
    while i < n
        invariant
            n == s@.len(),
            i <= n,
            v@ == s@.subrange(0, i as int),
        decreases n - i,
    {
        let c = s.get_char(i);
        v.push(c);
        i = i + 1;
        proof {
            assert(v@ =~= s@.subrange(0, i as int));
        }
    }
    proof {
        assert(v@ =~= s@);
    }
    v
}

/// Relies on `String`'s `FromIterator<char>` implementation from std:
/// collecting characters yields the string with exactly those characters.
#[verifier::external_body]
pub fn chars_to_string(v: &Vec<char>) -> (s: String)
    ensures
        s@ == v@,
{
    v.iter().collect()
}

/// Compare two character vectors for equality of their contents.
pub fn chars_eq(a: &Vec<char>, b: &Vec<char>) -> (r: bool)
    ensures
        r == (a@ == b@),
{
    if a.len() != b.len() {
        proof {
            assert(a@ != b@);
        }
        return false;
    }
    let n = a.len();
    let mut i: usize = 0;
    while i < n
        invariant
            n == a@.len(),
            n == b@.len(),
            i <= n,
            forall|k: int| 0 <= k < i ==> a@[k] == b@[k],
        decreases n - i,
    {
        if a[i] != b[i] {
            proof {
                assert(a@ != b@);
            }
            return false;
        }
        i = i + 1;
    }
    proof {
        assert(a@ =~= b@);
    }
    true
}

/// Compare a character vector against a string slice.
pub fn chars_eq_str(a: &Vec<char>, s: &str) -> (r: bool)
    ensures
        r == (a@ == s@),
{
    let b = str_to_chars(s);
    chars_eq(a, &b)
}

/// Compare two string slices for equality of their characters.
pub fn str_eq(a: &str, b: &str) -> (r: bool)
    ensures
        r == (a@ == b@),
{
    let av = str_to_chars(a);
    chars_eq_str(&av, b)
}

/// The needle occurs at position `i` of the haystack (executable check).
pub fn chars_contains_at(hay: &Vec<char>, needle: &Vec<char>, i: usize) -> (r: bool)
    requires
        i + needle@.len() <= hay@.len(),
    ensures
        r == spec_contains_at(hay@, needle@, i as int),
{
    let m = needle.len();
    let hl = hay.len();
    let mut j: usize = 0;
    while j < m
        invariant
            m == needle@.len(),
            hl == hay@.len(),
            i + m <= hay@.len(),
            j <= m,
            forall|k: int| 0 <= k < j ==> hay@[i + k] == needle@[k],
        decreases m - j,
    {
        if hay[i + j] != needle[j] {
            proof {
                assert(hay@.subrange(i as int, i + needle@.len()) != needle@) by {
                    assert(hay@.subrange(i as int, i + needle@.len())[j as int] == hay@[
                        i + j
                    ]);
                }
            }
            return false;
        }
        j = j + 1;
    }
    proof {
        assert(hay@.subrange(i as int, i + needle@.len()) =~= needle@);
    }
    true
}

/// Whether one character vector occurs inside another.
pub fn chars_contains(hay: &Vec<char>, needle: &Vec<char>) -> (r: bool)
    ensures
        r == spec_contains(hay@, needle@),
{
    let n = hay.len();
    let m = needle.len();
    if m > n {
        proof {
            assert(forall|i: int| !spec_contains_at(hay@, needle@, i));
        }
        return false;
    }
    let last = n - m;
    let mut i: usize = 0;
    loop
        invariant
            n == hay@.len(),
            m == needle@.len(),
            m <= n,
            last == n - m,
            i <= last,
            forall|k: int| 0 <= k < i ==> !spec_contains_at(hay@, needle@, k),
        decreases last - i,
    {
        if chars_contains_at(hay, needle, i) {
            return true;
        }
        if i == last {
            proof {
                assert(forall|k: int| k > last ==> !spec_contains_at(hay@, needle@, k));
                assert(forall|k: int| 0 <= k <= last ==> !spec_contains_at(
                    hay@,
                    needle@,
                    k,
                ));
            }
            return false;
        }
        i = i + 1;
    }
}

/// Characters treated as surrounding whitespace when tokens are normalized.
pub open spec fn is_space_char(c: char) -> bool {
    c == ' ' || c == '\t' || c == '\n' || c == '\r' || c == '\u{000B}' || c == '\u{000C}'
}

/// ASCII lowercase of a single character; other characters pass through.
pub open spec fn lower_char(c: char) -> char {
    if 'A' <= c && c <= 'Z' {
        (((c as u8) + 32) as char)
    } else {
        c
    }
}

/// Drop whitespace from the front of a sequence.
pub open spec fn spec_trim_start(s: Seq<char>) -> Seq<char>
    decreases s.len(),
{
    if s.len() > 0 && is_space_char(s[0]) {
        spec_trim_start(s.drop_first())
    } else {
        s
    }
}

/// Drop whitespace from the back of a sequence.
pub open spec fn spec_trim_end(s: Seq<char>) -> Seq<char>
    decreases s.len(),
{
    if s.len() > 0 && is_space_char(s[s.len() - 1]) {
        spec_trim_end(s.drop_last())
    } else {
        s
    }
}

/// Drop whitespace from both ends of a sequence.
pub open spec fn spec_trim(s: Seq<char>) -> Seq<char> {
    spec_trim_end(spec_trim_start(s))
}

/// ASCII lowercase of a whole sequence.
pub open spec fn spec_lower(s: Seq<char>) -> Seq<char> {
    Seq::new(s.len(), |i: int| lower_char(s[i]))
}

/// The normal form a capability token is compared under: surrounding
/// whitespace removed, ASCII letters lowered.
pub open spec fn normalize_token(s: Seq<char>) -> Seq<char> {
    spec_lower(spec_trim(s))
}

proof fn lemma_trim_start_subrange(s: Seq<char>, a: int)
    requires
        0 <= a <= s.len(),
        forall|k: int| 0 <= k < a ==> is_space_char(s[k]),
        a == s.len() || !is_space_char(s[a]),
    ensures
        spec_trim_start(s) == s.subrange(a, s.len() as int),
    decreases a,
{
    if a == 0 {
        assert(s.subrange(0, s.len() as int) =~= s);
    } else {
        assert(is_space_char(s[0]));
        let t = s.drop_first();
        assert(t =~= s.subrange(1, s.len() as int));
        lemma_trim_start_subrange(t, a - 1);
        assert(t.subrange(a - 1, t.len() as int) =~= s.subrange(a, s.len() as int));
    }
}

proof fn lemma_trim_end_subrange(s: Seq<char>, b: int)
    requires
        0 <= b <= s.len(),
        forall|k: int| b <= k < s.len() ==> is_space_char(s[k]),
        b == 0 || !is_space_char(s[b - 1]),
    ensures
        spec_trim_end(s) == s.subrange(0, b),
    decreases s.len() - b,
{
    if b == s.len() {
        assert(s.subrange(0, b) =~= s);
    } else {
        assert(is_space_char(s[s.len() - 1]));
        let t = s.drop_last();
        assert(t =~= s.subrange(0, s.len() - 1));
        lemma_trim_end_subrange(t, b);
        assert(t.subrange(0, b) =~= s.subrange(0, b));
    }
}

/// Normalize a token held as a character vector.
pub fn normalize_chars(v: &Vec<char>) -> (r: Vec<char>)
    ensures
        r@ == normalize_token(v@),
{
    let n = v.len();
    let mut a: usize = 0;
    while a < n && is_space(v[a])
        invariant
            n == v@.len(),
            a <= n,
            forall|k: int| 0 <= k < a ==> is_space_char(v@[k]),
        decreases n - a,
    {
        a = a + 1;
    }
    proof {
        lemma_trim_start_subrange(v@, a as int);
    }
    let mut b: usize = n;
    while b > a && is_space(v[b - 1])
        invariant
            n == v@.len(),
            a <= b <= n,
            forall|k: int| b <= k < n ==> is_space_char(v@[k]),
        decreases b,
    {
        b = b - 1;
    }
    proof {
        let t = spec_trim_start(v@);
        assert(t == v@.subrange(a as int, n as int));
        assert(forall|k: int| b - a <= k < t.len() ==> is_space_char(t[k]));
        if b > a {
            assert(t[b - a - 1] == v@[b - 1]);
        }
        lemma_trim_end_subrange(t, b - a);
    }
    let mut r: Vec<char> = Vec::new();
    let mut i: usize = a;
    while i < b
        invariant
            n == v@.len(),
            a <= i <= b <= n,
            r@.len() == i - a,
            forall|k: int| 0 <= k < i - a ==> r@[k] == lower_char(v@[a + k]),
        decreases b - i,
    {
        r.push(to_lower_char(v[i]));
        i = i + 1;
    }
    proof {
        assert(r@ =~= normalize_token(v@));
    }
    r
}

/// Executable test matching `is_space_char`.
pub fn is_space(c: char) -> (r: bool)
    ensures
        r == is_space_char(c),
{
    c == ' ' || c == '\t' || c == '\n' || c == '\r' || c == '\u{000B}' || c == '\u{000C}'
}

/// Executable ASCII lowercase of one character.
pub fn to_lower_char(c: char) -> (r: char)
    ensures
        r == lower_char(c),
{
    if 'A' <= c && c <= 'Z' {
        ((c as u8) + 32) as char
    } else {
        c
    }
}

/// Normalize a token held as a string slice.
pub fn normalize_str(s: &str) -> (r: Vec<char>)
    ensures
        r@ == normalize_token(s@),
{
    let v = str_to_chars(s);
    normalize_chars(&v)
}

/// Whether the second string occurs inside the first.
pub fn str_contains_sub(hay: &str, needle: &str) -> (r: bool)
    ensures
        r == spec_contains(hay@, needle@),
{
    let h = str_to_chars(hay);
    let n = str_to_chars(needle);
    chars_contains(&h, &n)
}


/// How many bytes one character occupies in UTF-8.
pub open spec fn char_utf8_len(c: char) -> int {
    vstd::utf8::encode_scalar(c as u32).len() as int
}

/// The UTF-8 byte length of a character sequence.
pub open spec fn byte_len(s: Seq<char>) -> int
    decreases s.len(),
{
    if s.len() == 0 {
        0
    } else {
        char_utf8_len(s[0]) + byte_len(s.drop_first())
    }
}

/// `byte_len` is the length of the UTF-8 encoding.
pub proof fn lemma_byte_len_encode(s: Seq<char>)
    ensures
        byte_len(s) == vstd::utf8::encode_utf8(s).len(),
    decreases s.len(),
{
    if s.len() > 0 {
        lemma_byte_len_encode(s.drop_first());
    }
}

/// Each character takes one to four bytes.
pub proof fn lemma_char_utf8_len_bounds(c: char)
    ensures
        1 <= char_utf8_len(c) <= 4,
{
}

/// A sequence's byte length is at least its character count and never
/// negative.
pub proof fn lemma_byte_len_nonneg(s: Seq<char>)
    ensures
        byte_len(s) >= s.len(),
    decreases s.len(),
{
    if s.len() > 0 {
        lemma_byte_len_nonneg(s.drop_first());
    }
}

/// One character's sequence has that character's byte length.
pub proof fn lemma_byte_len_singleton(c: char)
    ensures
        byte_len(seq![c]) == char_utf8_len(c),
{
    assert(seq![c].drop_first() =~= Seq::<char>::empty());
    assert(byte_len(Seq::<char>::empty()) == 0);
    assert(seq![c][0] == c);
}

/// Byte length adds over concatenation.
pub proof fn lemma_byte_len_concat(a: Seq<char>, b: Seq<char>)
    ensures
        byte_len(a + b) == byte_len(a) + byte_len(b),
    decreases a.len(),
{
    if a.len() == 0 {
        assert(a + b =~= b);
    } else {
        assert((a + b).drop_first() =~= a.drop_first() + b);
        lemma_byte_len_concat(a.drop_first(), b);
    }
}

/// A subrange's byte length never exceeds the whole sequence's.
pub proof fn lemma_byte_len_subrange(s: Seq<char>, from: int, to: int)
    requires
        0 <= from <= to <= s.len(),
    ensures
        byte_len(s.subrange(from, to)) <= byte_len(s),
{
    let pre = s.subrange(0, from);
    let mid = s.subrange(from, to);
    let post = s.subrange(to, s.len() as int);
    assert(s =~= pre + mid + post);
    lemma_byte_len_concat(pre + mid, post);
    lemma_byte_len_concat(pre, mid);
    lemma_byte_len_nonneg(pre);
    lemma_byte_len_nonneg(post);
}

/// The byte length of a string slice, read off its UTF-8 form.
pub fn str_byte_len(s: &str) -> (r: usize)
    ensures
        r == byte_len(s@),
        byte_len(s@) <= usize::MAX,
{
    proof {
        lemma_byte_len_encode(s@);
    }
    let b = s.as_bytes();
    b.len()
}

/// The byte count one character contributes to UTF-8 text.
pub fn char_byte_len(c: char) -> (r: usize)
    ensures
        r == char_utf8_len(c),
{
    let u = c as u32;
    if u < 0x80 {
        1
    } else if u < 0x800 {
        2
    } else if u < 0x10000 {
        3
    } else {
        4
    }
}

/// The byte length of part of a character vector.
pub fn chars_byte_len(v: &Vec<char>, from: usize, to: usize) -> (r: usize)
    requires
        from <= to <= v@.len(),
        byte_len(v@) <= usize::MAX,
    ensures
        r == byte_len(v@.subrange(from as int, to as int)),
{
    let mut acc: usize = 0;
    let mut i: usize = from;
    proof {
        assert(v@.subrange(from as int, from as int) =~= Seq::<char>::empty());
    }
    while i < to
        invariant
            from <= i <= to <= v@.len(),
            byte_len(v@) <= usize::MAX,
            acc == byte_len(v@.subrange(from as int, i as int)),
        decreases to - i,
    {
        proof {
            let pre = v@.subrange(from as int, i as int);
            let post = v@.subrange(from as int, i + 1);
            assert(post =~= pre + seq![v@[i as int]]);
            lemma_byte_len_concat(pre, seq![v@[i as int]]);
            lemma_byte_len_singleton(v@[i as int]);
            lemma_byte_len_subrange(v@, from as int, i + 1);
            lemma_byte_len_nonneg(v@.subrange(from as int, i + 1));
        }
        acc = acc + char_byte_len(v[i]);
        i = i + 1;
    }
    acc
}

/// The position of the first newline, or the length if there is none.
pub open spec fn first_nl(s: Seq<char>) -> int
    decreases s.len(),
{
    if s.len() == 0 {
        0
    } else if s[0] == '\n' {
        0
    } else {
        1 + first_nl(s.drop_first())
    }
}

/// `first_nl` points at the first newline: it is in range, everything
/// before it is not a newline, and it is a newline unless it is the length.
pub proof fn lemma_first_nl(s: Seq<char>)
    ensures
        0 <= first_nl(s) <= s.len(),
        forall|k: int| 0 <= k < first_nl(s) ==> s[k] != '\n',
        first_nl(s) < s.len() ==> s[first_nl(s)] == '\n',
    decreases s.len(),
{
    if s.len() > 0 && s[0] != '\n' {
        lemma_first_nl(s.drop_first());
        assert(forall|k: int| 0 <= k < first_nl(s.drop_first()) ==> s.drop_first()[k] != '\n');
        assert forall|k: int| 0 <= k < first_nl(s) implies s[k] != '\n' by {
            if k > 0 {
                assert(s.drop_first()[k - 1] != '\n');
            }
        }
    }
}

/// Anything that looks like the first newline is the first newline.
pub proof fn lemma_first_nl_at(s: Seq<char>, j: int)
    requires
        0 <= j <= s.len(),
        forall|k: int| 0 <= k < j ==> s[k] != '\n',
        j == s.len() || s[j] == '\n',
    ensures
        first_nl(s) == j,
    decreases j,
{
    if j == 0 {
        if s.len() > 0 {
            assert(s[0] == '\n');
        }
    } else {
        assert(s[0] != '\n');
        let d = s.drop_first();
        assert(forall|k: int| 0 <= k < j - 1 ==> #[trigger] d[k] == s[k + 1]);
        lemma_first_nl_at(d, j - 1);
    }
}

/// The pieces of a sequence split on newline characters; empty pieces are
/// kept, and a sequence with no newline is one piece.
pub open spec fn split_nl(s: Seq<char>) -> Seq<Seq<char>>
    decreases s.len(),
    via split_nl_decreases
{
    let j = first_nl(s);
    if j == s.len() {
        seq![s]
    } else {
        seq![s.take(j)] + split_nl(s.skip(j + 1))
    }
}

#[via_fn]
proof fn split_nl_decreases(s: Seq<char>) {
    lemma_first_nl(s);
}

/// The views of a list of character vectors.
pub open spec fn vecs_view(l: Seq<Vec<char>>) -> Seq<Seq<char>> {
    Seq::new(l.len(), |i: int| l[i]@)
}

/// Split a character vector at newlines; empty pieces are kept.
pub fn split_lines(v: &Vec<char>) -> (r: Vec<Vec<char>>)
    ensures
        vecs_view(r@) =~= split_nl(v@),
{
    let n = v.len();
    let mut done: Vec<Vec<char>> = Vec::new();
    let mut cur: Vec<char> = Vec::new();
    let mut start: usize = 0;
    let mut i: usize = 0;
    proof {
        assert(v@.skip(0) =~= v@);
        assert(vecs_view(done@) =~= Seq::<Seq<char>>::empty());
        assert(cur@ =~= v@.subrange(0, 0));
        assert(split_nl(v@) =~= vecs_view(done@) + split_nl(v@.skip(0)));
    }
    while i < n
        invariant
            n == v@.len(),
            start <= i <= n,
            cur@ == v@.subrange(start as int, i as int),
            forall|k: int| start <= k < i ==> v@[k] != '\n',
            split_nl(v@) =~= vecs_view(done@) + split_nl(v@.skip(start as int)),
        decreases n - i,
    {
        let c = v[i];
        if c == '\n' {
            proof {
                let rest = v@.skip(start as int);
                assert(forall|k: int| 0 <= k < i - start ==> #[trigger] rest[k] == v@[
                    k + start
                ]);
                lemma_first_nl_at(rest, i - start);
                assert(rest.take(i - start) =~= cur@);
                assert(rest.skip(i - start + 1) =~= v@.skip(i + 1));
                assert(split_nl(rest) =~= seq![cur@] + split_nl(v@.skip(i + 1)));
            }
            done.push(cur);
            cur = Vec::new();
            start = i + 1;
            proof {
                assert(vecs_view(done@) =~= vecs_view(done@.drop_last()) + seq![
                    done@.last()@,
                ]);
                assert(cur@ =~= v@.subrange(start as int, start as int));
            }
        } else {
            cur.push(c);
            proof {
                assert(cur@ =~= v@.subrange(start as int, i + 1));
            }
        }
        i = i + 1;
    }
    proof {
        let rest = v@.skip(start as int);
        assert(forall|k: int| 0 <= k < rest.len() ==> #[trigger] rest[k] == v@[k + start]);
        lemma_first_nl_at(rest, rest.len() as int);
        assert(rest.take(rest.len() as int) =~= rest);
        assert(cur@ =~= rest);
        assert(split_nl(rest) =~= seq![cur@]);
    }
    done.push(cur);
    done
}


/// One decimal digit as a character.
pub open spec fn digit_char(d: int) -> char {
    ((48 + d) as u8) as char
}

/// The decimal digits of a number, most significant first.
pub open spec fn dec_digits(n: int) -> Seq<char>
    decreases n,
{
    if n < 10 {
        seq![digit_char(n)]
    } else {
        dec_digits(n / 10).push(digit_char(n % 10))
    }
}

/// Render a number in decimal.
pub fn u64_to_chars(n: u64) -> (v: Vec<char>)
    ensures
        v@ == dec_digits(n as int),
    decreases n,
{
    if n < 10 {
        let mut v: Vec<char> = Vec::new();
        v.push(((48 + (n as u8)) as u8) as char);
        proof {
            assert(v@ =~= seq![digit_char(n as int)]);
        }
        v
    } else {
        let mut v = u64_to_chars(n / 10);
        v.push(((48 + ((n % 10) as u8)) as u8) as char);
        proof {
            assert((48 + ((n % 10) as u8)) as u8 == (48 + (n as int % 10)) as u8);
        }
        v
    }
}

/// Render a number as a decimal string.
pub fn u64_to_string(n: u64) -> (s: String)
    ensures
        s@ == dec_digits(n as int),
{
    let v = u64_to_chars(n);
    chars_to_string(&v)
}

} // verus!
