//! Character-level text model: whitespace, lines, blank-line separators and
//! trimming, together with the executable routines that realise them.

use vstd::prelude::*;

verus! {

/// Whitespace, exactly the characters with the Unicode `White_Space`
/// property, which is what surrounding-whitespace trimming removes.
pub open spec fn is_space(c: char) -> bool {
    ||| c == ' '
    ||| c == '\t'
    ||| c == '\n'
    ||| c == '\u{000B}'
    ||| c == '\u{000C}'
    ||| c == '\r'
    ||| c == '\u{0085}'
    ||| c == '\u{00A0}'
    ||| c == '\u{1680}'
    ||| (c as u32 >= 0x2000 && c as u32 <= 0x200A)
    ||| c == '\u{2028}'
    ||| c == '\u{2029}'
    ||| c == '\u{202F}'
    ||| c == '\u{205F}'
    ||| c == '\u{3000}'
}

/// Executable test for `is_space`.
pub fn is_space_char(c: char) -> (b: bool)
    ensures
        b == is_space(c),
{
    c == ' ' || c == '\t' || c == '\n' || c == '\u{000B}' || c == '\u{000C}' || c == '\r'
        || c == '\u{0085}' || c == '\u{00A0}' || c == '\u{1680}'
        || (c as u32 >= 0x2000 && c as u32 <= 0x200A) || c == '\u{2028}' || c == '\u{2029}'
        || c == '\u{202F}' || c == '\u{205F}' || c == '\u{3000}'
}

/// A comment line: its first character is `#`. The empty line is never a
/// comment.
pub open spec fn is_comment_line(line: Seq<char>) -> bool {
    line.len() > 0 && line[0] == '#'
}

/// Index of the first newline in `s`, or `s.len()` if there is none.
pub open spec fn line_end(s: Seq<char>) -> int
    decreases s.len(),
{
    if s.len() == 0 {
        0
    } else if s[0] == '\n' {
        0
    } else {
        1 + line_end(s.drop_first())
    }
}

/// `line_end` lies between 0 and `s.len()`, everything before it is not a
/// newline, and it points at a newline unless it is `s.len()`.
pub proof fn lemma_line_end(s: Seq<char>)
    ensures
        0 <= line_end(s) <= s.len(),
        forall|k: int| 0 <= k < line_end(s) ==> s[k] != '\n',
        line_end(s) < s.len() ==> s[line_end(s)] == '\n',
    decreases s.len(),
{
    if s.len() == 0 {
    } else if s[0] == '\n' {
    } else {
        lemma_line_end(s.drop_first());
        assert forall|k: int| 0 <= k < line_end(s) implies s[k] != '\n' by {
            if k > 0 {
                assert(s.drop_first()[k - 1] != '\n');
            }
        }
    }
}

/// Any index with the three properties of `lemma_line_end` is `line_end(s)`.
pub proof fn lemma_line_end_is(s: Seq<char>, i: int)
    requires
        0 <= i <= s.len(),
        forall|k: int| 0 <= k < i ==> s[k] != '\n',
        i < s.len() ==> s[i] == '\n',
    ensures
        line_end(s) == i,
    decreases s.len(),
{
    if s.len() == 0 {
    } else if s[0] == '\n' {
        if i > 0 {
            assert(s[0] != '\n');
        }
    } else {
        assert(i >= 1);
        let t = s.drop_first();
        assert forall|k: int| 0 <= k < i - 1 implies t[k] != '\n' by {
            assert(s[k + 1] != '\n');
        }
        lemma_line_end_is(t, i - 1);
    }
}

/// The text with every comment line removed. Each remaining line, in its
/// original order, is kept and given a trailing newline; blank lines are
/// preserved, since a blank line is never a comment.
pub open spec fn remove_comments(s: Seq<char>) -> Seq<char>
    decreases s.len(),
    via remove_comments_decreases
{
    if s.len() == 0 {
        Seq::<char>::empty()
    } else {
        let i = line_end(s);
        let line = s.subrange(0, i);
        let rest = if i == s.len() {
            Seq::<char>::empty()
        } else {
            s.subrange(i + 1, s.len() as int)
        };
        if is_comment_line(line) {
            remove_comments(rest)
        } else {
            line + seq!['\n'] + remove_comments(rest)
        }
    }
}

#[via_fn]
proof fn remove_comments_decreases(s: Seq<char>) {
    lemma_line_end(s);
}

/// Removes every comment line from `s`, keeping the other lines in order,
/// each with a trailing newline.
pub fn remove_comment_lines(s: &str) -> (r: String)
    ensures
        r@ == remove_comments(s@),
    decreases s@.len(),
{
    let n = s.unicode_len();
    if n == 0 {
        return String::new();
    }
    proof {
        lemma_line_end(s@);
    }
    let i = find_line_end(s);
    let line = s.substring_char(0, i);
    let rest = if i == n {
        s.substring_char(n, n)
    } else {
        s.substring_char(i + 1, n)
    };
    proof {
        if i == n {
            assert(rest@ =~= Seq::<char>::empty());
        }
    }
    let tail = remove_comment_lines(rest);
    if line.unicode_len() > 0 && line.get_char(0) == '#' {
        tail
    } else {
        let mut out = String::from_str(line);
        out.append("\n");
        out.append(tail.as_str());
        proof {
            reveal_strlit("\n");
            assert(out@ =~= remove_comments(s@));
        }
        out
    }
}

/// Index of the first newline in `s`, or `s@.len()` if there is none.
pub fn find_line_end(s: &str) -> (i: usize)
    ensures
        i as int == line_end(s@),
{
    let n = s.unicode_len();
    let mut i: usize = 0;
    while i < n
        invariant
            0 <= i <= n,
            n == s@.len(),
            forall|k: int| 0 <= k < i ==> s@[k] != '\n',
        decreases n - i,
    {
        if s.get_char(i) == '\n' {
            proof {
                lemma_line_end_is(s@, i as int);
            }
            return i;
        }
        i = i + 1;
    }
    proof {
        lemma_line_end_is(s@, n as int);
    }
    n
}

/// Index of the first blank-line separator (two consecutive newlines) in
/// `s`, or `s.len()` if there is none.
pub open spec fn sep_pos(s: Seq<char>) -> int
    decreases s.len(),
{
    if s.len() < 2 {
        s.len() as int
    } else if s[0] == '\n' && s[1] == '\n' {
        0
    } else {
        1 + sep_pos(s.drop_first())
    }
}

/// `sep_pos` lies between 0 and `s.len()`; when it is below `s.len()` it
/// points at two consecutive newlines, and no earlier position does.
pub proof fn lemma_sep_pos(s: Seq<char>)
    ensures
        0 <= sep_pos(s) <= s.len(),
        sep_pos(s) < s.len() ==> sep_pos(s) + 1 < s.len() && s[sep_pos(s)] == '\n' && s[sep_pos(
            s,
        ) + 1] == '\n',
        forall|k: int|
            0 <= k < sep_pos(s) && k + 1 < s.len() ==> !((#[trigger] s[k]) == '\n' && s[k + 1]
                == '\n'),
    decreases s.len(),
{
    if s.len() < 2 {
    } else if s[0] == '\n' && s[1] == '\n' {
    } else {
        let t = s.drop_first();
        lemma_sep_pos(t);
        assert forall|k: int|
            0 <= k < sep_pos(s) && k + 1 < s.len() implies !((#[trigger] s[k]) == '\n' && s[k + 1]
            == '\n') by {
            if k > 0 {
                assert(!(t[k - 1] == '\n' && t[k] == '\n'));
            }
        }
    }
}

/// Any index with the three properties of `lemma_sep_pos` is `sep_pos(s)`.
pub proof fn lemma_sep_pos_is(s: Seq<char>, p: int)
    requires
        0 <= p <= s.len(),
        p < s.len() ==> p + 1 < s.len() && s[p] == '\n' && s[p + 1] == '\n',
        forall|k: int|
            0 <= k < p && k + 1 < s.len() ==> !((#[trigger] s[k]) == '\n' && s[k + 1] == '\n'),
    ensures
        sep_pos(s) == p,
    decreases s.len(),
{
    if s.len() < 2 {
        if p < s.len() {
            assert(p + 1 < s.len());
        }
    } else if s[0] == '\n' && s[1] == '\n' {
        if p > 0 {
            assert(!(s[0] == '\n' && s[1] == '\n'));
        }
    } else {
        assert(p >= 1);
        let t = s.drop_first();
        assert forall|k: int|
            0 <= k < p - 1 && k + 1 < t.len() implies !((#[trigger] t[k]) == '\n' && t[k + 1]
            == '\n') by {
            assert(!(s[k + 1] == '\n' && s[k + 2] == '\n'));
        }
        lemma_sep_pos_is(t, p - 1);
    }
}

/// Index of the first blank-line separator in `s`, or `s@.len()` if there is
/// none.
pub fn find_sep(s: &str) -> (p: usize)
    ensures
        p as int == sep_pos(s@),
{
    let n = s.unicode_len();
    if n < 2 {
        proof {
            lemma_sep_pos_is(s@, n as int);
        }
        return n;
    }
    let mut p: usize = 0;
    while p + 1 < n
        invariant
            0 <= p,
            p + 1 <= n,
            n == s@.len(),
            forall|k: int| 0 <= k < p ==> !((#[trigger] s@[k]) == '\n' && s@[k + 1] == '\n'),
        decreases n - p,
    {
        if s.get_char(p) == '\n' && s.get_char(p + 1) == '\n' {
            proof {
                lemma_sep_pos_is(s@, p as int);
            }
            return p;
        }
        p = p + 1;
    }
    proof {
        lemma_sep_pos_is(s@, n as int);
    }
    n
}

/// The segments of `s`: the pieces between blank-line separators, found left
/// to right, in order. There is always at least one segment.
pub open spec fn split_segments(s: Seq<char>) -> Seq<Seq<char>>
    decreases s.len(),
    via split_segments_decreases
{
    let p = sep_pos(s);
    if p == s.len() {
        seq![s]
    } else {
        seq![s.subrange(0, p)] + split_segments(s.subrange(p + 2, s.len() as int))
    }
}

#[via_fn]
proof fn split_segments_decreases(s: Seq<char>) {
    lemma_sep_pos(s);
}

/// `s` with its leading whitespace removed.
pub open spec fn trim_start_of(s: Seq<char>) -> Seq<char>
    decreases s.len(),
{
    if s.len() == 0 {
        s
    } else if is_space(s[0]) {
        trim_start_of(s.drop_first())
    } else {
        s
    }
}

/// `s` with its trailing whitespace removed.
pub open spec fn trim_end_of(s: Seq<char>) -> Seq<char>
    decreases s.len(),
{
    if s.len() == 0 {
        s
    } else if is_space(s.last()) {
        trim_end_of(s.drop_last())
    } else {
        s
    }
}

/// `s` with its leading and trailing whitespace removed.
pub open spec fn trim_of(s: Seq<char>) -> Seq<char> {
    trim_end_of(trim_start_of(s))
}

/// Removes leading and trailing whitespace.
pub fn trim_str<'a>(s: &'a str) -> (r: &'a str)
    ensures
        r@ == trim_of(s@),
{
    let n = s.unicode_len();
    proof {
        assert(s@.subrange(0, n as int) =~= s@);
    }
    let mut lo: usize = 0;
    while lo < n && is_space_char(s.get_char(lo))
        invariant
            0 <= lo <= n,
            n == s@.len(),
            trim_start_of(s@) == trim_start_of(s@.subrange(lo as int, n as int)),
        decreases n - lo,
    {
        proof {
            let cur = s@.subrange(lo as int, n as int);
            assert(cur.drop_first() =~= s@.subrange(lo as int + 1, n as int));
        }
        lo = lo + 1;
    }
    let t = s.substring_char(lo, n);
    proof {
        assert(t@ == trim_start_of(s@));
    }
    let m = t.unicode_len();
    proof {
        assert(t@.subrange(0, m as int) =~= t@);
    }
    let mut hi: usize = m;
    while hi > 0 && is_space_char(t.get_char(hi - 1))
        invariant
            0 <= hi <= m,
            m == t@.len(),
            trim_end_of(t@) == trim_end_of(t@.subrange(0, hi as int)),
        decreases hi,
    {
        proof {
            let cur = t@.subrange(0, hi as int);
            assert(cur.drop_last() =~= t@.subrange(0, hi as int - 1));
        }
        hi = hi - 1;
    }
    let r = t.substring_char(0, hi);
    r
}

} // verus!
