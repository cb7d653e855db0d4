//! Content search: the pure middle of the grep tool. Pattern matching
//! itself is the regex crate's; everything around it — which lines are
//! reported, in what order, under what limit, and how long lines are
//! capped — is verified here.

use vstd::prelude::*;
use crate::text::str_to_chars;
use crate::tools::{content_lines, spec_cap_line, truncate_line};

verus! {

/// The regex crate's compiled pattern.
#[verifier::external_type_specification]
#[verifier::external_body]
pub struct ExRegex(regex::Regex);

/// The glob crate's compiled pattern.
#[verifier::external_type_specification]
#[verifier::external_body]
pub struct ExGlobPattern(glob::Pattern);

/// Whether a regex pattern, compiled with or without case folding, matches
/// somewhere in a line. The regex crate computes this from the pattern and
/// the line alone.
pub uninterp spec fn match_of(pattern: Seq<char>, case_insensitive: bool, line: Seq<char>) -> bool;

/// Whether the regex crate accepts a pattern, with or without case
/// folding: compilation success depends on the pattern and the flag alone.
pub uninterp spec fn regex_accepts(pattern: Seq<char>, case_insensitive: bool) -> bool;

/// Whether a glob pattern matches a file name, as the glob crate computes
/// it from the pattern and the name alone.
pub uninterp spec fn glob_match_of(pattern: Seq<char>, name: Seq<char>) -> bool;

/// Whether the glob crate accepts a pattern: compilation success depends
/// on the pattern alone.
pub uninterp spec fn glob_accepts(pattern: Seq<char>) -> bool;

/// The characters the pattern grammar treats as metacharacters.
pub open spec fn is_regex_meta(c: char) -> bool {
    c == '\\' || c == '.' || c == '+' || c == '*' || c == '?' || c == '(' || c == ')' || c == '|'
        || c == '[' || c == ']' || c == '{' || c == '}' || c == '^' || c == '$' || c == '#' || c
        == '&' || c == '-' || c == '~'
}

/// The pattern matching a text literally: each metacharacter prefixed
/// with a backslash.
pub open spec fn regex_escaped(s: Seq<char>) -> Seq<char>
    decreases s.len(),
{
    if s.len() == 0 {
        Seq::empty()
    } else {
        (if is_regex_meta(s[0]) {
            seq!['\\', s[0]]
        } else {
            seq![s[0]]
        }) + regex_escaped(s.drop_first())
    }
}

/// Escaping one more character appends its escaped form.
proof fn lemma_escaped_snoc(s: Seq<char>, c: char)
    ensures
        regex_escaped(s.push(c)) == regex_escaped(s) + (if is_regex_meta(c) {
            seq!['\\', c]
        } else {
            seq![c]
        }),
    decreases s.len(),
{
    let p = s.push(c);
    let tail = if is_regex_meta(c) {
        seq!['\\', c]
    } else {
        seq![c]
    };
    if s.len() == 0 {
        assert(p.drop_first() =~= Seq::<char>::empty());
        assert(p[0] == c);
        assert(regex_escaped(Seq::<char>::empty()) == Seq::<char>::empty());
        assert(regex_escaped(p) =~= regex_escaped(s) + tail);
    } else {
        assert(p.drop_first() =~= s.drop_first().push(c));
        assert(p[0] == s[0]);
        lemma_escaped_snoc(s.drop_first(), c);
        assert(regex_escaped(p) =~= regex_escaped(s) + tail);
    }
}

/// Escape a text into the pattern that matches it literally.
pub fn escape_pattern(text: &str) -> (r: String)
    ensures
        r@ == regex_escaped(text@),
{
    let v = str_to_chars(text);
    let n = v.len();
    let mut out: Vec<char> = Vec::new();
    let mut i: usize = 0;
    proof {
        assert(v@.take(0) =~= Seq::<char>::empty());
    }
    while i < n
        invariant
            n == v@.len(),
            i <= n,
            out@ == regex_escaped(v@.take(i as int)),
        decreases n - i,
    {
        proof {
            assert(v@.take(i + 1) =~= v@.take(i as int).push(v@[i as int]));
            lemma_escaped_snoc(v@.take(i as int), v@[i as int]);
        }
        let c = v[i];
        let meta = c == '\\' || c == '.' || c == '+' || c == '*' || c == '?' || c == '(' || c
            == ')' || c == '|' || c == '[' || c == ']' || c == '{' || c == '}' || c == '^' || c
            == '$' || c == '#' || c == '&' || c == '-' || c == '~';
        if meta {
            out.push('\\');
        }
        out.push(c);
        i = i + 1;
        proof {
            assert(out@ =~= regex_escaped(v@.take(i as int)));
        }
    }
    proof {
        assert(v@.take(n as int) =~= v@);
    }
    crate::text::chars_to_string(&out)
}

/// Relies on `regex::RegexBuilder`: compiling the pattern, with case
/// folding when asked; a rejected pattern comes back as the crate's
/// message. Whether compilation succeeds is a function of the pattern and
/// the flag alone, named `regex_accepts`.
#[verifier::external_body]
fn regex_compile(pattern: &str, case_insensitive: bool) -> (r: Result<regex::Regex, String>)
    ensures
        (r is Ok) == regex_accepts(pattern@, case_insensitive),
{
    regex::RegexBuilder::new(pattern).case_insensitive(case_insensitive).build().map_err(|e| e.to_string())
}

/// A compiled search pattern, remembering what it was compiled from.
pub struct CompiledPattern {
    regex: regex::Regex,
    pattern: String,
    case_insensitive: bool,
}

impl CompiledPattern {
    /// The pattern text this was compiled from.
    pub closed spec fn spec_pattern(&self) -> Seq<char> {
        self.pattern@
    }

    /// Whether it folds case.
    pub closed spec fn spec_ci(&self) -> bool {
        self.case_insensitive
    }

    /// Compile a pattern: it succeeds exactly when the pattern grammar
    /// accepts it; a rejected pattern comes back as the regex crate's
    /// message.
    pub fn compile(pattern: &str, case_insensitive: bool) -> (r: Result<CompiledPattern, String>)
        ensures
            (r is Ok) == regex_accepts(pattern@, case_insensitive),
            r matches Ok(p) ==> p.spec_pattern() == pattern@ && p.spec_ci() == case_insensitive,
    {
        match regex_compile(pattern, case_insensitive) {
            Ok(regex) => Ok(
                CompiledPattern { regex, pattern: pattern.to_owned(), case_insensitive },
            ),
            Err(e) => Err(e),
        }
    }

    /// Relies on `regex::Regex::is_match`: whether the pattern matches
    /// somewhere in the line, a function of the pattern, its case folding,
    /// and the line. The field really holds the compilation of the stored
    /// pattern: only `compile` builds this type.
    #[verifier::external_body]
    pub fn is_match(&self, line: &str) -> (r: bool)
        ensures
            r == match_of(self.spec_pattern(), self.spec_ci(), line@),
    {
        self.regex.is_match(line)
    }
}

/// A compiled glob, remembering what it was compiled from.
pub struct CompiledGlob {
    inner: glob::Pattern,
    pattern: String,
}

impl CompiledGlob {
    /// The pattern text this was compiled from.
    pub closed spec fn spec_pattern(&self) -> Seq<char> {
        self.pattern@
    }

    /// Compile a glob: it succeeds exactly when the glob grammar accepts
    /// it; a rejected pattern comes back as the glob crate's message.
    pub fn compile(pattern: &str) -> (r: Result<CompiledGlob, String>)
        ensures
            (r is Ok) == glob_accepts(pattern@),
            r matches Ok(p) ==> p.spec_pattern() == pattern@,
    {
        match glob_compile(pattern) {
            Ok(inner) => Ok(CompiledGlob { inner, pattern: pattern.to_owned() }),
            Err(e) => Err(e),
        }
    }

    /// Relies on `glob::Pattern::matches`: whether the glob matches the
    /// name, a function of the pattern and the name. The field really
    /// holds the compilation of the stored pattern: only `compile` builds
    /// this type.
    #[verifier::external_body]
    pub fn matches(&self, name: &str) -> (r: bool)
        ensures
            r == glob_match_of(self.spec_pattern(), name@),
    {
        self.inner.matches(name)
    }
}

/// Relies on `glob::Pattern::new`: compiling the pattern; a rejected
/// pattern comes back as the crate's message. Whether compilation
/// succeeds is a function of the pattern alone, named `glob_accepts`.
#[verifier::external_body]
fn glob_compile(pattern: &str) -> (r: Result<glob::Pattern, String>)
    ensures
        (r is Ok) == glob_accepts(pattern@),
{
    glob::Pattern::new(pattern).map_err(|e| e.to_string())
}

/// One reported match: its one-based line number and the capped line.
pub struct GrepMatch {
    pub line_number: usize,
    pub text: String,
    pub was_truncated: bool,
}

/// The matches of a pattern against a text's lines, in order, keeping at
/// most `limit` of them: for each matching line its one-based number and
/// the line capped at `max_chars` characters.
pub open spec fn spec_grep(
    pattern: Seq<char>,
    ci: bool,
    lines: Seq<Seq<char>>,
    i: int,
    limit: int,
    max_chars: int,
) -> Seq<(int, Seq<char>)>
    decreases lines.len() - i,
{
    if i < 0 || i >= lines.len() || limit <= 0 {
        Seq::empty()
    } else if match_of(pattern, ci, lines[i]) {
        seq![(i + 1, spec_cap_line(lines[i], max_chars))] + spec_grep(
            pattern,
            ci,
            lines,
            i + 1,
            limit - 1,
            max_chars,
        )
    } else {
        spec_grep(pattern, ci, lines, i + 1, limit, max_chars)
    }
}

/// The matched views of reported matches.
pub open spec fn grep_views(l: Seq<GrepMatch>) -> Seq<(int, Seq<char>)> {
    Seq::new(l.len(), |k: int| (l[k].line_number as int, l[k].text@))
}

/// Search a text's lines with a compiled pattern: the matching lines in
/// order, at most `limit` of them, each capped at `max_chars` characters.
pub fn grep_file(p: &CompiledPattern, content: &str, limit: usize, max_chars: usize) -> (r: Vec<
    GrepMatch,
>)
    ensures
        grep_views(r@) =~= spec_grep(
            p.spec_pattern(),
            p.spec_ci(),
            content_lines(content@),
            0,
            limit as int,
            max_chars as int,
        ),
{
    let chars = str_to_chars(content);
    let mut lines = crate::text::split_lines(&chars);
    proof {
        assert(crate::text::split_nl(content@).len() >= 1);
    }
    if chars.len() == 0 {
        let r: Vec<GrepMatch> = Vec::new();
        proof {
            assert(content_lines(content@) =~= Seq::<Seq<char>>::empty());
            assert(grep_views(r@) =~= Seq::<(int, Seq<char>)>::empty());
        }
        return r;
    }
    if lines[lines.len() - 1].len() == 0 {
        let ghost before = lines@;
        let _ = lines.pop();
        proof {
            assert(crate::text::vecs_view(lines@) =~= crate::text::vecs_view(before).drop_last());
        }
    }
    let ghost kept = crate::text::vecs_view(lines@);
    proof {
        assert(kept.len() <= crate::text::split_nl(content@).len());
        assert(content_lines(content@) =~= Seq::new(kept.len(), |k: int| crate::tools::strip_cr(kept[k])));
    }
    let n = lines.len();
    let mut r: Vec<GrepMatch> = Vec::new();
    let mut remaining = limit;
    let mut i: usize = 0;
    while i < n && remaining > 0
        invariant
            n == lines@.len(),
            n == kept.len(),
            crate::text::vecs_view(lines@) == kept,
            i <= n,
            remaining <= limit,
            grep_views(r@) + spec_grep(
                p.spec_pattern(),
                p.spec_ci(),
                Seq::new(kept.len(), |k: int| crate::tools::strip_cr(kept[k])),
                i as int,
                remaining as int,
                max_chars as int,
            ) =~= spec_grep(
                p.spec_pattern(),
                p.spec_ci(),
                Seq::new(kept.len(), |k: int| crate::tools::strip_cr(kept[k])),
                0,
                limit as int,
                max_chars as int,
            ),
        decreases n - i,
    {
        let line = &lines[i];
        let stripped_len = if line.len() > 0 && line[line.len() - 1] == '\r' {
            line.len() - 1
        } else {
            line.len()
        };
        let mut stripped: Vec<char> = Vec::new();
        let mut k: usize = 0;
        while k < stripped_len
            invariant
                stripped_len <= line@.len(),
                k <= stripped_len,
                stripped@ == line@.subrange(0, k as int),
            decreases stripped_len - k,
        {
            stripped.push(line[k]);
            k = k + 1;
            proof {
                assert(stripped@ =~= line@.subrange(0, k as int));
            }
        }
        proof {
            assert(stripped@ =~= crate::tools::strip_cr(kept[i as int]));
        }
        let line_text = crate::text::chars_to_string(&stripped);
        if p.is_match(line_text.as_str()) {
            let capped = truncate_line(line_text.as_str(), max_chars);
            let ghost before = grep_views(r@);
            r.push(
                GrepMatch {
                    line_number: i + 1,
                    text: capped.text,
                    was_truncated: capped.was_truncated,
                },
            );
            proof {
                assert(grep_views(r@) =~= before.push(
                    (i + 1 as int, spec_cap_line(stripped@, max_chars as int)),
                ));
            }
            remaining = remaining - 1;
        }
        i = i + 1;
    }
    proof {
        let ls = Seq::new(kept.len(), |k: int| crate::tools::strip_cr(kept[k]));
        if i < n {
            assert(spec_grep(
                p.spec_pattern(),
                p.spec_ci(),
                ls,
                i as int,
                remaining as int,
                max_chars as int,
            ) =~= Seq::<(int, Seq<char>)>::empty());
        } else {
            assert(spec_grep(
                p.spec_pattern(),
                p.spec_ci(),
                ls,
                n as int,
                remaining as int,
                max_chars as int,
            ) =~= Seq::<(int, Seq<char>)>::empty());
        }
        assert(grep_views(r@) + Seq::<(int, Seq<char>)>::empty() =~= grep_views(r@));
    }
    r
}

} // verus!
