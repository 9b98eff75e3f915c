//! Slash-command templates: the template data type, the directory
//! convention, and template expansion.
//!
//! Command files live under `.agent/commands` in a space; the shell
//! reads and writes them, and hands their contents here.

use vstd::prelude::*;
use vstd::string::StringExecFns;

use crate::strings::chars_vec;
use crate::strings::string_from_chars;

verus! {

/// A slash command loaded from a markdown file.
#[derive(Debug, Clone)]
pub struct SlashCommand {
    /// Command name (the file name without the `.md` extension).
    pub name: String,
    /// Full path to the command file.
    pub path: String,
    /// Command description (first content line of the file).
    pub description: String,
    /// Full markdown template.
    pub template: String,
    /// Whether the template expects arguments.
    pub accepts_arguments: bool,
}

/// Replacement of every occurrence of `pat` in `t` by `sub`, leftmost
/// first and without overlap.
pub open spec fn spec_replace(t: Seq<char>, pat: Seq<char>, sub: Seq<char>) -> Seq<char>
    decreases t.len(),
    when pat.len() > 0
{
    if t.len() < pat.len() {
        t
    } else if t.subrange(0, pat.len() as int) == pat {
        sub + spec_replace(t.skip(pat.len() as int), pat, sub)
    } else {
        seq![t[0]] + spec_replace(t.drop_first(), pat, sub)
    }
}

/// `pat` occurs somewhere in `t`.
pub open spec fn spec_contains(t: Seq<char>, pat: Seq<char>) -> bool {
    exists|i: int|
        0 <= i <= t.len() - pat.len() && #[trigger] t.subrange(i, i + pat.len()) == pat
}

/// Whether `pat` starts at position `i` of `t`.
fn match_at(t: &Vec<char>, pat: &Vec<char>, i: usize) -> (r: bool)
    requires
        i <= t@.len(),
    ensures
        r == (i + pat@.len() <= t@.len() && t@.subrange(i as int, i + pat@.len()) == pat@),
{
    if pat.len() > t.len() - i {
        return false;
    }
    let m = pat.len();
    let tn = t.len();
    let mut j: usize = 0;
    while j < m
        invariant
            m == pat@.len(),
            tn == t@.len(),
            i + m <= t@.len(),
            j <= m,
            forall|k: int| 0 <= k < j ==> t@[i + k] == pat@[k],
        decreases m - j,
    {
        if t[i + j] != pat[j] {
            proof {
                assert(t@.subrange(i as int, i + pat@.len())[j as int] != pat@[j as int]);
            }
            return false;
        }
        j = j + 1;
    }
    proof {
        assert(t@.subrange(i as int, i + pat@.len()) =~= pat@);
    }
    true
}

/// Every occurrence of `pattern` in `text` replaced by `replacement`,
/// leftmost first and without overlap.
pub fn replace_all(text: &str, pattern: &str, replacement: &str) -> (r: String)
    requires
        pattern@.len() > 0,
    ensures
        r@ == spec_replace(text@, pattern@, replacement@),
{
    let t = chars_vec(text);
    let pat = chars_vec(pattern);
    let sub = chars_vec(replacement);
    let n = t.len();
    let m = pat.len();
    let mut out: Vec<char> = Vec::new();
    let mut i: usize = 0;
    proof {
        assert(t@.skip(0) =~= t@);
    }
    while i < n
        invariant
            t@ == text@,
            pat@ == pattern@,
            sub@ == replacement@,
            n == t@.len(),
            m == pat@.len(),
            m > 0,
            i <= n,
            spec_replace(text@, pattern@, replacement@) == out@ + spec_replace(
                t@.skip(i as int),
                pat@,
                sub@,
            ),
        decreases n - i,
    {
        let ghost rest = t@.skip(i as int);
        if match_at(&t, &pat, i) {
            proof {
                assert(rest.subrange(0, m as int) =~= t@.subrange(i as int, i + m));
                assert(rest.skip(m as int) =~= t@.skip(i + m));
            }
            out.extend_from_slice(sub.as_slice());
            i = i + m;
            proof {
                assert(spec_replace(rest, pat@, sub@) == sub@ + spec_replace(
                    t@.skip(i as int),
                    pat@,
                    sub@,
                ));
            }
        } else {
            proof {
                assert(rest.len() > 0);
                assert(rest[0] == t@[i as int]);
                assert(rest.drop_first() =~= t@.skip(i + 1));
                if rest.len() >= m {
                    assert(rest.subrange(0, m as int) =~= t@.subrange(i as int, i + m));
                    assert(spec_replace(rest, pat@, sub@) == seq![rest[0]] + spec_replace(
                        rest.drop_first(),
                        pat@,
                        sub@,
                    ));
                } else {
                    assert(spec_replace(rest, pat@, sub@) == rest);
                    assert(spec_replace(rest.drop_first(), pat@, sub@) == rest.drop_first());
                    assert(spec_replace(rest, pat@, sub@) =~= seq![rest[0]] + spec_replace(
                        rest.drop_first(),
                        pat@,
                        sub@,
                    ));
                }
            }
            out.push(t[i]);
            i = i + 1;
        }
    }
    proof {
        assert(t@.skip(n as int) =~= Seq::<char>::empty());
        assert(spec_replace(Seq::<char>::empty(), pat@, sub@) == Seq::<char>::empty());
        assert(out@ =~= spec_replace(text@, pattern@, replacement@));
    }
    string_from_chars(&out)
}

/// Whether `pattern` occurs in `text`.
pub fn contains_pattern(text: &str, pattern: &str) -> (r: bool)
    requires
        pattern@.len() > 0,
    ensures
        r == spec_contains(text@, pattern@),
{
    let t = chars_vec(text);
    let pat = chars_vec(pattern);
    let n = t.len();
    let mut i: usize = 0;
    while i < n
        invariant
            t@ == text@,
            pat@ == pattern@,
            n == t@.len(),
            i <= n,
            forall|k: int|
                0 <= k < i ==> !(k + pat@.len() <= t@.len() && #[trigger] t@.subrange(
                    k,
                    k + pat@.len(),
                ) == pat@),
        decreases n - i,
    {
        if match_at(&t, &pat, i) {
            return true;
        }
        i = i + 1;
    }
    false
}

/// The whitespace ignored when trimming a line.
pub open spec fn spec_is_space(c: char) -> bool {
    c == ' ' || c == '\t' || c == '\r' || c == '\n'
}

/// The line with leading and trailing whitespace removed.
pub open spec fn spec_trim(s: Seq<char>) -> Seq<char>
    decreases s.len(),
{
    if s.len() == 0 {
        s
    } else if spec_is_space(s[0]) {
        spec_trim(s.drop_first())
    } else if spec_is_space(s.last()) {
        spec_trim(s.drop_last())
    } else {
        s
    }
}

/// The position of the first newline, or the length when there is none.
pub open spec fn spec_first_newline(s: Seq<char>) -> nat
    decreases s.len(),
{
    if s.len() == 0 {
        0
    } else if s[0] == '\n' {
        0
    } else {
        1 + spec_first_newline(s.drop_first())
    }
}

/// The description of a command file: the first line that is non-empty
/// after trimming and is not a heading.
pub open spec fn spec_description_of(s: Seq<char>) -> Option<Seq<char>>
    decreases s.len(),
{
    if s.len() == 0 {
        None
    } else {
        let k = if spec_first_newline(s) <= s.len() {
            spec_first_newline(s) as int
        } else {
            s.len() as int
        };
        let t = spec_trim(s.subrange(0, k));
        if t.len() > 0 && t[0] != '#' {
            Some(t)
        } else if k >= s.len() {
            None
        } else {
            spec_description_of(s.subrange(k + 1, s.len() as int))
        }
    }
}

fn is_space_char(c: char) -> (r: bool)
    ensures
        r == spec_is_space(c),
{
    c == ' ' || c == '\t' || c == '\r' || c == '\n'
}

/// A scan that passed no space before `lo`, none at or after `hi`, and
/// non-spaces at both ends of `[lo, hi)` has found the trimmed segment.
proof fn lemma_trim_range(s: Seq<char>, lo: int, hi: int)
    requires
        0 <= lo <= hi <= s.len(),
        forall|j: int| 0 <= j < lo ==> spec_is_space(#[trigger] s[j]),
        forall|j: int| hi <= j < s.len() ==> spec_is_space(#[trigger] s[j]),
        lo < hi ==> !spec_is_space(s[lo]) && !spec_is_space(s[hi - 1]),
    ensures
        spec_trim(s) == s.subrange(lo, hi),
    decreases s.len(),
{
    if s.len() == 0 {
        assert(s.subrange(0, 0) =~= s);
    } else if spec_is_space(s[0]) {
        let rest = s.drop_first();
        if lo == 0 {
            assert(hi == 0);
            lemma_trim_range(rest, 0, 0);
            assert(s.subrange(0, 0) =~= rest.subrange(0, 0));
        } else {
            lemma_trim_range(rest, lo - 1, hi - 1);
            assert(s.subrange(lo, hi) =~= rest.subrange(lo - 1, hi - 1));
        }
    } else if spec_is_space(s.last()) {
        let front = s.drop_last();
        assert(lo == 0);
        assert(hi < s.len());
        lemma_trim_range(front, 0, hi);
        assert(s.subrange(0, hi) =~= front.subrange(0, hi));
    } else {
        assert(lo == 0);
        assert(hi == s.len());
        assert(s.subrange(0, s.len() as int) =~= s);
    }
}

/// A scan that saw no newline before `k`, and a newline at `k` unless
/// `k` is the end, has found the first newline.
proof fn lemma_first_newline_at(s: Seq<char>, k: int)
    requires
        0 <= k <= s.len(),
        forall|j: int| 0 <= j < k ==> #[trigger] s[j] != '\n',
        k < s.len() ==> s[k] == '\n',
    ensures
        spec_first_newline(s) == k,
    decreases k,
{
    if k > 0 {
        lemma_first_newline_at(s.drop_first(), k - 1);
    }
}

/// The bounds of the current line, trimmed: spaces skipped from both
/// ends of `[lo0, hi0)`.
fn trimmed_bounds(v: &Vec<char>, lo0: usize, hi0: usize) -> (r: (usize, usize))
    requires
        lo0 <= hi0 <= v@.len(),
    ensures
        lo0 <= r.0 <= r.1 <= hi0,
        spec_trim(v@.subrange(lo0 as int, hi0 as int)) == v@.subrange(r.0 as int, r.1 as int),
{
    let mut lo = lo0;
    let mut hi = hi0;
    while lo < hi && is_space_char(v[lo])
        invariant
            lo0 <= lo <= hi,
            hi == hi0 <= v@.len(),
            forall|j: int| lo0 <= j < lo ==> spec_is_space(#[trigger] v@[j]),
        decreases hi - lo,
    {
        lo = lo + 1;
    }
    while hi > lo && is_space_char(v[hi - 1])
        invariant
            lo0 <= lo <= hi <= hi0 <= v@.len(),
            forall|j: int| lo0 <= j < lo ==> spec_is_space(#[trigger] v@[j]),
            forall|j: int| hi <= j < hi0 ==> spec_is_space(#[trigger] v@[j]),
            lo < hi ==> !spec_is_space(v@[lo as int]),
        decreases hi - lo,
    {
        hi = hi - 1;
    }
    proof {
        let line = v@.subrange(lo0 as int, hi0 as int);
        lemma_trim_range(line, lo - lo0, hi - lo0);
        assert(line.subrange(lo - lo0, hi - lo0) =~= v@.subrange(lo as int, hi as int));
    }
    (lo, hi)
}

/// The description of a command file's contents: its first line that is
/// non-empty after trimming and does not start a heading; see
/// [`spec_description_of`].
pub fn parse_description(content: &str) -> (r: Option<String>)
    ensures
        match r {
            Some(d) => spec_description_of(content@) == Some(d@),
            None => spec_description_of(content@) is None,
        },
{
    let v = chars_vec(content);
    let n = v.len();
    let mut start: usize = 0;
    proof {
        assert(v@.skip(0) =~= v@);
    }
    while start < n
        invariant
            v@ == content@,
            n == v@.len(),
            start <= n,
            spec_description_of(content@) == spec_description_of(v@.skip(start as int)),
        decreases n - start,
    {
        let ghost rest = v@.skip(start as int);
        // find the end of the current line
        let mut e = start;
        while e < n && v[e] != '\n'
            invariant
                start <= e <= n == v@.len(),
                forall|j: int| start <= j < e ==> #[trigger] v@[j] != '\n',
            decreases n - e,
        {
            e = e + 1;
        }
        proof {
            assert(forall|j: int| 0 <= j < e - start ==> rest[j] == v@[start + j]);
            lemma_first_newline_at(rest, e - start);
        }
        let (lo, hi) = trimmed_bounds(&v, start, e);
        proof {
            assert(rest.subrange(0, e - start) =~= v@.subrange(start as int, e as int));
        }
        if hi > lo && v[lo] != '#' {
            let mut picked: Vec<char> = Vec::new();
            let mut j = lo;
            while j < hi
                invariant
                    lo <= j <= hi <= v@.len(),
                    picked@ == v@.subrange(lo as int, j as int),
                decreases hi - j,
            {
                picked.push(v[j]);
                proof {
                    assert(picked@ =~= v@.subrange(lo as int, j + 1));
                }
                j = j + 1;
            }
            proof {
                assert(spec_description_of(rest) == Some(v@.subrange(lo as int, hi as int)));
            }
            return Some(string_from_chars(&picked));
        }
        if e == n {
            proof {
                assert(spec_description_of(rest) is None);
            }
            return None;
        }
        proof {
            assert(rest.subrange(e - start + 1, rest.len() as int) =~= v@.skip(e + 1));
        }
        start = e + 1;
    }
    proof {
        assert(v@.skip(n as int) =~= Seq::<char>::empty());
    }
    None
}

/// A command parsed from its file: the name is the file stem, the
/// description its first content line (or a fixed fallback), and the
/// template the whole file; it accepts arguments when the placeholder
/// occurs anywhere in it.
pub fn parse_command(command_name: &str, path: &str, content: &str) -> (r: SlashCommand)
    ensures
        r.name@ == command_name@,
        r.path@ == path@,
        r.template@ == content@,
        r.description@ == (match spec_description_of(content@) {
            Some(d) => d,
            None => "No description"@,
        }),
        r.accepts_arguments == spec_contains(content@, "$ARGUMENTS"@),
{
    proof {
        reveal_strlit("$ARGUMENTS");
    }
    let description = match parse_description(content) {
        Some(d) => d,
        None => String::from_str("No description"),
    };
    let accepts_arguments = contains_pattern(content, "$ARGUMENTS");
    SlashCommand {
        name: String::from_str(command_name),
        path: String::from_str(path),
        description,
        template: String::from_str(content),
        accepts_arguments,
    }
}

/// The directory a space's command files live in.
pub fn get_commands_directory(space_path: &str) -> (r: String)
    ensures
        r@ == space_path@ + "/.agent/commands"@,
{
    let mut s = String::from_str(space_path);
    s.append("/.agent/commands");
    s
}

/// Expand a command template: every `$ARGUMENTS` placeholder becomes
/// the supplied arguments.
pub fn expand_command_template(template: &str, arguments: &str) -> (r: String)
    ensures
        r@ == spec_replace(template@, "$ARGUMENTS"@, arguments@),
{
    proof {
        reveal_strlit("$ARGUMENTS");
    }
    replace_all(template, "$ARGUMENTS", arguments)
}

/// The markdown written for a newly created command: a heading with the
/// command's name, then the description, then the template.
pub fn command_file_content(command_name: &str, description: &str, template: &str) -> (r: String)
    ensures
        r@ == "# "@ + command_name@ + "\n\n"@ + description@ + "\n\n"@ + template@,
{
    let mut s = String::from_str("# ");
    s.append(command_name);
    s.append("\n\n");
    s.append(description);
    s.append("\n\n");
    s.append(template);
    s
}

} // verus!
