//! Post-processing of extracted text: removal of markup remnants and
//! normalisation of white space and blank lines.
use vstd::prelude::*;

use crate::text::{
    is_white_space, lemma_trim, occurs_at, trim_end, trim_start, trimmed_ends, chars_of, contains, contains_chars, copy_range, find, find_from, lemma_find, string_of, trim,
    trim_bounds, trimmed,
};

verus! {

/// The length of the run of non-`{` characters that begins `s`.
pub open spec fn brace_free_len(s: Seq<char>) -> nat
    decreases s.len(),
{
    if s.len() == 0 || s[0] == '{' {
        0
    } else {
        1 + brace_free_len(s.drop_first())
    }
}

/// The start of the last `}}` in `s`, if any.
pub open spec fn last_double_close(s: Seq<char>) -> Option<int>
    decreases s.len(),
{
    if s.len() < 2 {
        None
    } else if s[s.len() - 2] == '}' && s[s.len() - 1] == '}' {
        Some(s.len() - 2)
    } else {
        last_double_close(s.drop_last())
    }
}

/// `s` with what the pattern `[^{]*\}\}` matches removed, one match after
/// another from the left. A match starts where the run of non-`{`
/// characters holds a `}}` and ends just after the last `}}` of that run;
/// when the run holds none, the search goes on after the `{` that ends it.
pub open spec fn strip_orphans(s: Seq<char>) -> Seq<char>
    decreases s.len(),
{
    let j = brace_free_len(s) as int;
    proof {
        lemma_brace_free_len(s);
        lemma_last_double_close(s.take(j));
    }
    match last_double_close(s.take(j)) {
        Some(k) => strip_orphans(s.skip(k + 2)),
        None => if j < s.len() {
            s.take(j + 1) + strip_orphans(s.skip(j + 1))
        } else {
            s
        },
    }
}

/// The opening of an HTML comment remnant, `!--`.
pub open spec fn comment_open() -> Seq<char> {
    seq!['!', '-', '-']
}

/// Where the comment remnant whose opening `!--` precedes `s` closes: the
/// start of the first `--` in `s`, provided no line break comes before it
/// (in the pattern `!--.*?--`, `.` matches anything but `\n`).
pub open spec fn comment_close_at(s: Seq<char>) -> Option<int>
    decreases s.len(),
{
    if s.len() < 2 {
        None
    } else if s[0] == '-' && s[1] == '-' {
        Some(0)
    } else if s[0] == '\n' {
        None
    } else {
        match comment_close_at(s.drop_first()) {
            Some(m) => Some(m + 1),
            None => None,
        }
    }
}

/// The close of a comment remnant that opens at the start of `s`, if `s`
/// begins with `!--` and the remnant closes (see [`comment_close_at`]).
pub open spec fn comment_at(s: Seq<char>) -> Option<int> {
    if s.len() >= 3 && s[0] == '!' && s[1] == '-' && s[2] == '-' {
        comment_close_at(s.skip(3))
    } else {
        None
    }
}

/// `s` with what the pattern `!--.*?--` matches removed, one match after
/// another from the left: each `!--` goes together with the nearest
/// following `--` on the same line and everything between them; a `!--`
/// that no `--` closes on its line stays.
pub open spec fn strip_comments(s: Seq<char>) -> Seq<char>
    decreases s.len(),
{
    if s.len() == 0 {
        s
    } else {
        proof {
            lemma_comment_close_at(s.skip(3));
        }
        match comment_at(s) {
            Some(m) => strip_comments(s.skip(m + 5)),
            None => seq![s[0]] + strip_comments(s.drop_first()),
        }
    }
}

/// The run of non-`{` characters that begins `s` ends at a `{` or at the
/// end of `s`.
pub proof fn lemma_brace_free_len(s: Seq<char>)
    ensures
        brace_free_len(s) <= s.len(),
        forall|i: int| 0 <= i < brace_free_len(s) ==> s[i] != '{',
        brace_free_len(s) < s.len() ==> s[brace_free_len(s) as int] == '{',
    decreases s.len(),
{
    if s.len() > 0 && s[0] != '{' {
        lemma_brace_free_len(s.drop_first());
        assert forall|i: int| 0 <= i < brace_free_len(s) implies s[i] != '{' by {
            if i > 0 {
                assert(s[i] == s.drop_first()[i - 1]);
            }
        }
    }
}

/// The last `}}` of `s` is a `}}` within `s`.
pub proof fn lemma_last_double_close(s: Seq<char>)
    ensures
        last_double_close(s) matches Some(k) ==> 0 <= k && k + 2 <= s.len() && s[k] == '}' && s[k + 1] == '}',
    decreases s.len(),
{
    if s.len() >= 2 && !(s[s.len() - 2] == '}' && s[s.len() - 1] == '}') {
        lemma_last_double_close(s.drop_last());
    }
}

/// The close of a comment remnant is a `--` within `s`.
pub proof fn lemma_comment_close_at(s: Seq<char>)
    ensures
        comment_close_at(s) matches Some(m) ==> 0 <= m && m + 2 <= s.len() && s[m] == '-' && s[m + 1] == '-',
    decreases s.len(),
{
    if s.len() >= 2 && !(s[0] == '-' && s[1] == '-') && s[0] != '\n' {
        lemma_comment_close_at(s.drop_first());
    }
}

/// `s` with every run of two or more spaces replaced by one space.
pub open spec fn collapse(s: Seq<char>) -> Seq<char>
    decreases s.len(),
{
    if s.len() == 0 {
        s
    } else if s.len() >= 2 && s.last() == ' ' && s[s.len() - 2] == ' ' {
        collapse(s.drop_last())
    } else {
        collapse(s.drop_last()).push(s.last())
    }
}

/// The cleaned form of one line; empty when the line is dropped.
///
/// A line that starts (after trimming) with `|` is a template parameter or
/// table remnant and is dropped. Otherwise orphaned `}}` closes and comment
/// remnants are removed, runs of spaces are collapsed, and the result is
/// trimmed.
pub open spec fn clean_line(line: Seq<char>) -> Seq<char> {
    let t = trim(line);
    if t.len() > 0 && t[0] == '|' {
        Seq::empty()
    } else {
        let s1 = if contains(t, seq!['}', '}']) { strip_orphans(t) } else { t };
        let s2 = if contains(s1, comment_open()) { strip_comments(s1) } else { s1 };
        let s2t = trim(s2);
        let s3 = if contains(s2t, seq![' ', ' ']) { collapse(s2t) } else { s2t };
        trim(s3)
    }
}

/// The lines of `s`: the pieces between `\n` characters.
pub open spec fn split_lines(s: Seq<char>) -> Seq<Seq<char>>
    decreases s.len(),
{
    match find(s, seq!['\n']) {
        None => seq![s],
        Some(i) => {
            proof {
                lemma_find(s, seq!['\n']);
            }
            seq![s.take(i)] + split_lines(s.skip(i + 1))
        },
    }
}

/// One step of joining cleaned lines: `blank` records that a dropped or
/// empty line came since the last kept one. Kept lines are separated by a
/// blank line (`\n\n`) when such a line came between them, else by `\n`.
pub open spec fn join_step(acc: Seq<char>, blank: bool, line: Seq<char>) -> (Seq<char>, bool) {
    let c = clean_line(line);
    if c.len() == 0 {
        (acc, true)
    } else if acc.len() == 0 {
        (c, false)
    } else if blank {
        (acc + seq!['\n', '\n'] + c, false)
    } else {
        (acc + seq!['\n'] + c, false)
    }
}

/// Joins the cleaned `lines` onto `acc`.
pub open spec fn join_lines(lines: Seq<Seq<char>>, acc: Seq<char>, blank: bool) -> Seq<char>
    decreases lines.len(),
{
    if lines.len() == 0 {
        acc
    } else {
        let (a, b) = join_step(acc, blank, lines[0]);
        join_lines(lines.drop_first(), a, b)
    }
}

/// The post-processed form of `text`: each line cleaned, dropped lines
/// removed, blank-line runs reduced to one, nothing before the first or
/// after the last kept line.
pub open spec fn clean_text_spec(text: Seq<char>) -> Seq<char> {
    join_lines(split_lines(text), Seq::empty(), false)
}

/// The end of the run of non-`{` characters that starts at `v[i]`.
fn brace_free_end(v: &[char], i: usize) -> (j: usize)
    requires
        i <= v@.len(),
    ensures
        j == i + brace_free_len(v@.skip(i as int)),
        j <= v@.len(),
{
    let len = v.len();
    let mut j = i;
    while j < len && v[j] != '{'
        invariant
            i <= j <= len,
            len == v@.len(),
            brace_free_len(v@.skip(i as int)) == (j - i) + brace_free_len(v@.skip(j as int)),
        decreases len - j,
    {
        assert(v@.skip(j as int).drop_first() =~= v@.skip(j + 1));
        j = j + 1;
    }
    assert(brace_free_len(v@.skip(j as int)) == 0);
    j
}

/// Just past the last `}}` in `v[i..j]`, if it holds one.
fn last_close_end(v: &[char], i: usize, j: usize) -> (r: Option<usize>)
    requires
        i <= j <= v@.len(),
    ensures
        match last_double_close(v@.subrange(i as int, j as int)) {
            Some(k) => r == Some((i + k + 2) as usize),
            None => r is None,
        },
{
    let mut k = j;
    while k - i >= 2 && !(v[k - 2] == '}' && v[k - 1] == '}')
        invariant
            i <= k <= j,
            j <= v@.len(),
            last_double_close(v@.subrange(i as int, j as int)) == last_double_close(
                v@.subrange(i as int, k as int),
            ),
        decreases k,
    {
        assert(v@.subrange(i as int, k as int).drop_last() =~= v@.subrange(i as int, k - 1));
        k = k - 1;
    }
    if k - i >= 2 {
        Some(k)
    } else {
        None
    }
}

/// Removes orphaned template closes from `v` (see [`strip_orphans`]).
pub fn strip_orphaned_template_close(v: &[char]) -> (r: Vec<char>)
    ensures
        r@ == strip_orphans(v@),
{
    let mut result: Vec<char> = Vec::new();
    let mut i: usize = 0;
    let len = v.len();
    assert(v@.skip(0) =~= v@);
    while i < len
        invariant
            len == v@.len(),
            i <= len,
            result@ + strip_orphans(v@.skip(i as int)) == strip_orphans(v@),
        decreases len - i,
    {
        let ghost rest = v@.skip(i as int);
        let j = brace_free_end(v, i);
        assert(rest.take(j - i) =~= v@.subrange(i as int, j as int));
        proof {
            lemma_brace_free_len(rest);
            lemma_last_double_close(rest.take(j - i));
        }
        match last_close_end(v, i, j) {
            Some(k) => {
                assert(rest.skip(k - i) =~= v@.skip(k as int));
                i = k;
            },
            None => {
                if j < len {
                    let mut head = copy_range(v, i, j + 1);
                    assert(head@ =~= rest.take(j - i + 1));
                    assert(rest.skip(j - i + 1) =~= v@.skip(j + 1));
                    result.append(&mut head);
                    i = j + 1;
                } else {
                    let mut head = copy_range(v, i, len);
                    assert(head@ =~= rest);
                    result.append(&mut head);
                    i = len;
                    assert(v@.skip(len as int) =~= Seq::<char>::empty());
                    assert(strip_orphans(Seq::<char>::empty()) =~= Seq::<char>::empty());
                }
            },
        }
    }
    assert(v@.skip(len as int) =~= Seq::<char>::empty());
    assert(strip_orphans(Seq::<char>::empty()) =~= Seq::<char>::empty());
    assert(result@ + Seq::<char>::empty() =~= result@);
    result
}

/// Where a comment remnant that opens at `v[i]` ends: just past its
/// closing `--` (see [`comment_at`]).
fn comment_end(v: &[char], i: usize) -> (r: Option<usize>)
    requires
        i < v@.len(),
    ensures
        match comment_at(v@.skip(i as int)) {
            Some(m) => r == Some((i + m + 5) as usize),
            None => r is None,
        },
{
    let ghost rest = v@.skip(i as int);
    let len = v.len();
    if len - i >= 3 && v[i] == '!' && v[i + 1] == '-' && v[i + 2] == '-' {
        let mut m = i + 3;
        assert(rest.skip(3) =~= v@.skip(m as int));
        while len - m >= 2 && !(v[m] == '-' && v[m + 1] == '-') && v[m] != '\n'
            invariant
                i + 3 <= m <= len,
                len == v@.len(),
                rest == v@.skip(i as int),
                comment_close_at(rest.skip(3)) == match comment_close_at(v@.skip(m as int)) {
                    Some(q) => Some(q + (m - i - 3)),
                    None => None,
                },
            decreases len - m,
        {
            assert(v@.skip(m as int).drop_first() =~= v@.skip(m + 1));
            m = m + 1;
        }
        if len - m >= 2 && v[m] == '-' && v[m + 1] == '-' {
            assert(comment_close_at(v@.skip(m as int)) == Some(0int));
            Some(m + 2)
        } else {
            assert(comment_close_at(v@.skip(m as int)) is None);
            None
        }
    } else {
        None
    }
}

/// Removes HTML comment remnants from `v` (see [`strip_comments`]).
pub fn strip_comment_remnants(v: &[char]) -> (r: Vec<char>)
    ensures
        r@ == strip_comments(v@),
{
    let mut result: Vec<char> = Vec::new();
    let mut i: usize = 0;
    let len = v.len();
    assert(v@.skip(0) =~= v@);
    while i < len
        invariant
            len == v@.len(),
            i <= len,
            result@ + strip_comments(v@.skip(i as int)) == strip_comments(v@),
        decreases len - i,
    {
        let ghost rest = v@.skip(i as int);
        proof {
            lemma_comment_close_at(rest.skip(3));
        }
        match comment_end(v, i) {
            Some(e) => {
                assert(rest.skip(e - i) =~= v@.skip(e as int));
                i = e;
            },
            None => {
                let ghost before = result@;
                result.push(v[i]);
                assert(rest.drop_first() =~= v@.skip(i + 1));
                assert(before + strip_comments(rest) =~= result@ + strip_comments(v@.skip(i + 1)));
                i = i + 1;
            },
        }
    }
    assert(v@.skip(len as int) =~= Seq::<char>::empty());
    assert(result@ + Seq::<char>::empty() =~= result@);
    result
}

/// Collapses runs of spaces in `v` (see [`collapse`]).
pub fn collapse_spaces(v: &[char]) -> (r: Vec<char>)
    ensures
        r@ == collapse(v@),
{
    let mut result: Vec<char> = Vec::new();
    let mut last_was_space = false;
    let mut i: usize = 0;
    while i < v.len()
        invariant
            i <= v@.len(),
            result@ == collapse(v@.take(i as int)),
            last_was_space == (i > 0 && v@[i - 1] == ' '),
        decreases v@.len() - i,
    {
        let c = v[i];
        assert(v@.take(i + 1).drop_last() =~= v@.take(i as int));
        if c == ' ' {
            if !last_was_space {
                result.push(c);
            }
            last_was_space = true;
        } else {
            result.push(c);
            last_was_space = false;
        }
        i = i + 1;
    }
    assert(v@.take(v@.len() as int) =~= v@);
    result
}

/// The cleaned form of the line `v[lo..hi]` (see [`clean_line`]).
fn clean_line_range(v: &[char], lo: usize, hi: usize) -> (r: Vec<char>)
    requires
        lo <= hi <= v@.len(),
    ensures
        r@ == clean_line(v@.subrange(lo as int, hi as int)),
{
    let (a, b) = trim_bounds(v, lo, hi);
    let t = copy_range(v, a, b);
    if t.len() > 0 && t[0] == '|' {
        return Vec::new();
    }
    let braces: [char; 2] = ['}', '}'];
    let open: [char; 3] = ['!', '-', '-'];
    let spaces: [char; 2] = [' ', ' '];
    assert(braces@ =~= seq!['}', '}']);
    assert(open@ =~= comment_open());
    assert(spaces@ =~= seq![' ', ' ']);
    let s1 = if contains_chars(t.as_slice(), braces.as_slice()) {
        strip_orphaned_template_close(t.as_slice())
    } else {
        t
    };
    let s2 = if contains_chars(s1.as_slice(), open.as_slice()) {
        strip_comment_remnants(s1.as_slice())
    } else {
        s1
    };
    let s2t = trimmed(s2.as_slice());
    let s3 = if contains_chars(s2t.as_slice(), spaces.as_slice()) {
        collapse_spaces(s2t.as_slice())
    } else {
        s2t
    };
    trimmed(s3.as_slice())
}

/// Post-processes extracted text: removes markup remnants line by line,
/// trims each line, collapses runs of spaces, and joins the kept lines with
/// at most one blank line between them (see [`clean_text_spec`]).
pub fn clean_text(text: &str) -> (r: String)
    ensures
        r@ == clean_text_spec(text@),
{
    let v = chars_of(text);
    let newline: [char; 1] = ['\n'];
    assert(newline@ =~= seq!['\n']);
    let mut result: Vec<char> = Vec::new();
    let mut blank = false;
    let mut pos: usize = 0;
    assert(v@.skip(0) =~= v@);
    loop
        invariant
            pos <= v@.len(),
            v@.len() == v.len(),
            v@ == text@,
            newline@ == seq!['\n'],
            join_lines(split_lines(v@.skip(pos as int)), result@, blank) == clean_text_spec(v@),
        decreases v@.len() - pos,
    {
        let ghost rest = v@.skip(pos as int);
        let next = find_from(v.as_slice(), pos, newline.as_slice());
        let end = match next {
            Some(e) => e,
            None => v.len(),
        };
        proof {
            lemma_find(rest, seq!['\n']);
            match find(rest, seq!['\n']) {
                Some(k) => {
                    assert(end == pos + k);
                    assert(rest.take(k) =~= v@.subrange(pos as int, end as int));
                    assert(rest.skip(k + 1) =~= v@.skip(end + 1));
                },
                None => {
                    assert(rest =~= v@.subrange(pos as int, end as int));
                    assert(split_lines(rest).drop_first() =~= Seq::<Seq<char>>::empty());
                },
            }
        }
        let c = clean_line_range(v.as_slice(), pos, end);
        let ghost line = v@.subrange(pos as int, end as int);
        let ghost lines = split_lines(rest);
        let ghost tail = if next is Some { split_lines(v@.skip(end + 1)) } else { Seq::<Seq<char>>::empty() };
        let ghost step = join_step(result@, blank, line);
        proof {
            assert(lines[0] == line);
            assert(lines.drop_first() =~= tail);
            assert(join_lines(lines, result@, blank) == join_lines(tail, step.0, step.1));
        }
        let ghost acc0 = result@;
        if c.len() == 0 {
            blank = true;
        } else {
            if result.len() > 0 {
                result.push('\n');
                if blank {
                    result.push('\n');
                }
            }
            let mut cc = c;
            result.append(&mut cc);
            blank = false;
            proof {
                if acc0.len() == 0 {
                    assert(result@ =~= c@);
                } else if step.1 {
                } else {
                }
            }
        }
        assert(result@ =~= step.0 && blank == step.1);
        match next {
            None => {
                assert(tail =~= Seq::<Seq<char>>::empty());
                assert(join_lines(tail, result@, blank) == result@);
                return string_of(result.as_slice());
            },
            Some(_) => {
                pos = end + 1;
            },
        }
    }
}

/// Whether `c` does not occur in `s`.
pub open spec fn lacks(s: Seq<char>, c: char) -> bool {
    forall|i: int| 0 <= i < s.len() ==> s[i] != c
}

/// Whether `s` holds no two spaces in a row.
pub open spec fn single_spaced(s: Seq<char>) -> bool {
    forall|i: int| 0 <= i && i + 1 < s.len() ==> !(#[trigger] s[i] == ' ' && s[i + 1] == ' ')
}

/// Whether `s` holds no three line breaks in a row.
pub open spec fn no_triple_newline(s: Seq<char>) -> bool {
    forall|i: int|
        0 <= i && i + 2 < s.len() ==> !(#[trigger] s[i] == '\n' && s[i + 1] == '\n' && s[i + 2] == '\n')
}


/// Pieces keep the absence of a character and of double spaces.
proof fn lemma_piece(s: Seq<char>, a: int, b: int, c: char)
    requires
        0 <= a <= b <= s.len(),
    ensures
        lacks(s, c) ==> lacks(s.subrange(a, b), c),
        single_spaced(s) ==> single_spaced(s.subrange(a, b)),
{
    if single_spaced(s) {
        assert forall|i: int| 0 <= i && i + 1 < s.subrange(a, b).len() implies !(#[trigger] s.subrange(
            a,
            b,
        )[i] == ' ' && s.subrange(a, b)[i + 1] == ' ') by {
            assert(s.subrange(a, b)[i] == s[a + i]);
            assert(s.subrange(a, b)[i + 1] == s[a + i + 1]);
        }
    }
}

proof fn lemma_strip_orphans_lacks(s: Seq<char>, c: char)
    ensures
        lacks(s, c) ==> lacks(strip_orphans(s), c),
    decreases s.len(),
{
    let j = brace_free_len(s) as int;
    lemma_brace_free_len(s);
    lemma_last_double_close(s.take(j));
    match last_double_close(s.take(j)) {
        Some(k) => {
            lemma_strip_orphans_lacks(s.skip(k + 2), c);
        },
        None => {
            if j < s.len() {
                lemma_strip_orphans_lacks(s.skip(j + 1), c);
                let a = s.take(j + 1);
                let b = strip_orphans(s.skip(j + 1));
                if lacks(s, c) {
                    assert forall|i: int| 0 <= i < (a + b).len() implies (a + b)[i] != c by {
                        if i < a.len() {
                            assert((a + b)[i] == s[i]);
                        } else {
                            assert((a + b)[i] == b[i - a.len()]);
                        }
                    }
                }
            }
        },
    }
}

proof fn lemma_strip_comments_lacks(s: Seq<char>, c: char)
    ensures
        lacks(s, c) ==> lacks(strip_comments(s), c),
    decreases s.len(),
{
    if s.len() > 0 {
        lemma_comment_close_at(s.skip(3));
        match comment_at(s) {
            Some(m) => {
                lemma_strip_comments_lacks(s.skip(m + 5), c);
            },
            None => {
                lemma_strip_comments_lacks(s.drop_first(), c);
                let a = seq![s[0]];
                let b = strip_comments(s.drop_first());
                if lacks(s, c) {
                    assert forall|i: int| 0 <= i < (a + b).len() implies (a + b)[i] != c by {
                        if i < 1 {
                            assert((a + b)[i] == s[0]);
                        } else {
                            assert((a + b)[i] == b[i - 1]);
                        }
                    }
                }
            },
        }
    }
}

proof fn lemma_collapse(s: Seq<char>, c: char)
    ensures
        lacks(s, c) ==> lacks(collapse(s), c),
        single_spaced(collapse(s)),
        s.len() > 0 ==> collapse(s).len() > 0 && collapse(s).last() == s.last(),
    decreases s.len(),
{
    if s.len() > 0 {
        lemma_collapse(s.drop_last(), c);
        let p = collapse(s.drop_last());
        if s.len() >= 2 && s.last() == ' ' && s[s.len() - 2] == ' ' {
            assert(s.drop_last().last() == ' ');
        } else {
            assert forall|i: int| 0 <= i && i + 1 < p.push(s.last()).len() implies !(
            #[trigger] p.push(s.last())[i] == ' ' && p.push(s.last())[i + 1] == ' ') by {
                if i + 1 == p.len() {
                    if s.len() >= 2 {
                        assert(p.last() == s.drop_last().last());
                    }
                } else {
                    assert(p.push(s.last())[i] == p[i]);
                    assert(p.push(s.last())[i + 1] == p[i + 1]);
                }
            }
        }
    }
}

/// Text without `  ` holds no two spaces in a row.
proof fn lemma_no_double_space(s: Seq<char>)
    requires
        !contains(s, seq![' ', ' ']),
    ensures
        single_spaced(s),
{
    lemma_find(s, seq![' ', ' ']);
    assert forall|i: int| 0 <= i && i + 1 < s.len() implies !(#[trigger] s[i] == ' ' && s[i + 1]
        == ' ') by {
        if s[i] == ' ' && s[i + 1] == ' ' {
            assert(s.subrange(i, i + 2) =~= seq![' ', ' ']);
            assert(occurs_at(s, seq![' ', ' '], i));
        }
    }
}

/// A cleaned line has no line break and no double space, and no white
/// space at its ends.
proof fn lemma_clean_line(line: Seq<char>)
    requires
        lacks(line, '\n'),
    ensures
        lacks(clean_line(line), '\n'),
        single_spaced(clean_line(line)),
        trimmed_ends(clean_line(line)),
{
    let (a, b) = lemma_trim(line);
    let t = trim(line);
    lemma_piece(line, a, b, '\n');
    if t.len() > 0 && t[0] == '|' {
    } else {
        lemma_strip_orphans_lacks(t, '\n');
        let s1 = if contains(t, seq!['}', '}']) { strip_orphans(t) } else { t };
        lemma_strip_comments_lacks(s1, '\n');
        let s2 = if contains(s1, comment_open()) { strip_comments(s1) } else { s1 };
        let (c, d) = lemma_trim(s2);
        let s2t = trim(s2);
        lemma_piece(s2, c, d, '\n');
        lemma_collapse(s2t, '\n');
        if !contains(s2t, seq![' ', ' ']) {
            lemma_no_double_space(s2t);
        }
        let s3 = if contains(s2t, seq![' ', ' ']) { collapse(s2t) } else { s2t };
        let (e, f) = lemma_trim(s3);
        lemma_piece(s3, e, f, '\n');
    }
}

/// The lines of a text hold no line breaks.
proof fn lemma_split_lines(s: Seq<char>)
    ensures
        forall|k: int| 0 <= k < split_lines(s).len() ==> lacks(#[trigger] split_lines(s)[k], '\n'),
    decreases s.len(),
{
    lemma_find(s, seq!['\n']);
    match find(s, seq!['\n']) {
        None => {
            assert forall|i: int| 0 <= i < s.len() implies s[i] != '\n' by {
                if s[i] == '\n' {
                    assert(s.subrange(i, i + 1) =~= seq!['\n']);
                    assert(occurs_at(s, seq!['\n'], i));
                }
            }
        },
        Some(i) => {
            lemma_split_lines(s.skip(i + 1));
            assert forall|j: int| 0 <= j < i implies s.take(i)[j] != '\n' by {
                if s[j] == '\n' {
                    assert(s.subrange(j, j + 1) =~= seq!['\n']);
                    assert(occurs_at(s, seq!['\n'], j));
                }
            }
            let rest = split_lines(s.skip(i + 1));
            assert forall|k: int| 0 <= k < split_lines(s).len() implies lacks(
                #[trigger] split_lines(s)[k],
                '\n',
            ) by {
                if k > 0 {
                    assert(split_lines(s)[k] == rest[k - 1]);
                }
            }
        },
    }
}

/// Whether every line of `s` is trimmed: next to a line break there is no
/// white space but another line break.
pub open spec fn lines_trimmed(s: Seq<char>) -> bool {
    forall|i: int|
        0 <= i < s.len() && #[trigger] s[i] == '\n' ==> (i == 0 || s[i - 1] == '\n' || !is_white_space(
            s[i - 1],
        )) && (i + 1 == s.len() || s[i + 1] == '\n' || !is_white_space(s[i + 1]))
}

/// What joining keeps: trimmed ends, trimmed lines, single spacing, and at
/// most one blank line in a row.
pub open spec fn tidy(s: Seq<char>) -> bool {
    trimmed_ends(s) && lines_trimmed(s) && single_spaced(s) && no_triple_newline(s)
}

proof fn lemma_join_step(acc: Seq<char>, blank: bool, line: Seq<char>)
    requires
        tidy(acc),
        lacks(line, '\n'),
    ensures
        tidy(join_step(acc, blank, line).0),
{
    lemma_clean_line(line);
    let c = clean_line(line);
    if c.len() > 0 && acc.len() > 0 {
        let sep: Seq<char> = if blank { seq!['\n', '\n'] } else { seq!['\n'] };
        let r = acc + sep + c;
        assert(join_step(acc, blank, line).0 == r);
        assert(r[0] == acc[0]);
        assert(r.last() == c.last());
        assert forall|i: int| 0 <= i && i + 1 < r.len() implies !(#[trigger] r[i] == ' ' && r[i + 1]
            == ' ') by {
            if i + 1 < acc.len() {
                assert(r[i] == acc[i] && r[i + 1] == acc[i + 1]);
            } else if i >= acc.len() + sep.len() {
                assert(r[i] == c[i - acc.len() - sep.len()]);
                assert(r[i + 1] == c[i + 1 - acc.len() - sep.len()]);
            } else if i < acc.len() {
                assert(r[i + 1] == sep[0]);
            } else {
                assert(r[i] == sep[i - acc.len()]);
            }
        }
        assert forall|i: int| 0 <= i && i + 2 < r.len() implies !(#[trigger] r[i] == '\n' && r[i
            + 1] == '\n' && r[i + 2] == '\n') by {
            if i + 2 < acc.len() {
                assert(r[i] == acc[i] && r[i + 1] == acc[i + 1] && r[i + 2] == acc[i + 2]);
            } else if i >= acc.len() + sep.len() {
                assert(r[i] == c[i - acc.len() - sep.len()]);
            } else if i < acc.len() {
                assert(r[acc.len() - 1] == acc.last());
                if i + 1 == acc.len() {
                } else {
                    assert(r[i + 1] == acc.last());
                }
            } else if i + 2 >= acc.len() + sep.len() {
                assert(r[(acc.len() + sep.len()) as int] == c[0]);
                if i + 1 >= acc.len() + sep.len() {
                    assert(r[i + 1] == c[i + 1 - acc.len() - sep.len()]);
                }
            }
        }
        assert forall|i: int| 0 <= i < r.len() && #[trigger] r[i] == '\n' implies (i == 0 || r[i - 1]
            == '\n' || !is_white_space(r[i - 1])) && (i + 1 == r.len() || r[i + 1] == '\n'
            || !is_white_space(r[i + 1])) by {
            let a = acc.len() as int;
            let b = a + sep.len();
            if i < a {
                assert(r[i] == acc[i]);
                if i > 0 {
                    assert(r[i - 1] == acc[i - 1]);
                }
                if i + 1 < a {
                    assert(r[i + 1] == acc[i + 1]);
                } else {
                    assert(r[i + 1] == sep[0]);
                }
            } else if i < b {
                if i == a {
                    assert(r[i - 1] == acc.last());
                } else {
                    assert(r[i - 1] == sep[0]);
                }
                if i + 1 < b {
                    assert(r[i + 1] == sep[i + 1 - a]);
                } else {
                    assert(r[i + 1] == c[0]);
                }
            } else {
                assert(r[i] == c[i - b]);
            }
        }
    } else if c.len() > 0 {
        assert(join_step(acc, blank, line).0 == c);
    }
}

proof fn lemma_join_lines(lines: Seq<Seq<char>>, acc: Seq<char>, blank: bool)
    requires
        tidy(acc),
        forall|k: int| 0 <= k < lines.len() ==> lacks(#[trigger] lines[k], '\n'),
    ensures
        tidy(join_lines(lines, acc, blank)),
    decreases lines.len(),
{
    if lines.len() > 0 {
        lemma_join_step(acc, blank, lines[0]);
        let (a, b) = join_step(acc, blank, lines[0]);
        assert forall|k: int| 0 <= k < lines.drop_first().len() implies lacks(
            #[trigger] lines.drop_first()[k],
            '\n',
        ) by {
            assert(lines.drop_first()[k] == lines[k + 1]);
        }
        lemma_join_lines(lines.drop_first(), a, b);
    }
}

/// Post-processed text has no white space at its start or end, no white
/// space at the start or end of any line, no two spaces in a row, and no
/// more than one blank line in a row.
pub proof fn law_clean_text_is_tidy(text: Seq<char>)
    ensures
        tidy(clean_text_spec(text)),
{
    lemma_split_lines(text);
    lemma_join_lines(split_lines(text), Seq::empty(), false);
}

/// A text that is a single line, has no white space at its ends, does not
/// begin with `|`, and holds no `}}`, no `!--` and no two spaces in a row,
/// comes out of post-processing unchanged.
pub proof fn law_plain_line_unchanged(text: Seq<char>)
    requires
        text.len() > 0,
        lacks(text, '\n'),
        trimmed_ends(text),
        text[0] != '|',
        !contains(text, seq!['}', '}']),
        !contains(text, comment_open()),
        !contains(text, seq![' ', ' ']),
    ensures
        clean_text_spec(text) == text,
{
    lemma_find(text, seq!['\n']);
    if let Some(i) = find(text, seq!['\n']) {
        assert(text.subrange(i, i + 1)[0] == text[i]);
    }
    assert(trim_start(text) == text);
    assert(trim_end(text) == text);
    assert(split_lines(text) =~= seq![text]);
    assert(clean_line(text) == text);
    assert(seq![text].drop_first() =~= Seq::<Seq<char>>::empty());
    assert(join_step(Seq::empty(), false, text) == (text, false));
    assert(join_lines(Seq::<Seq<char>>::empty(), text, false) == text);
    assert(join_lines(seq![text], Seq::empty(), false) == text);
}

} // verus!
