use vstd::prelude::*;

verus! {

/// A whitespace character: the characters that delimit the two fields of a
/// palette line, the same set that Rust's `char::is_whitespace` accepts.
pub open spec fn is_space(c: char) -> bool {
    ||| c == ' '
    ||| c == '\t'
    ||| c == '\n'
    ||| c == '\u{b}'
    ||| c == '\u{c}'
    ||| c == '\r'
    ||| c == '\u{85}'
    ||| c == '\u{a0}'
    ||| c == '\u{1680}'
    ||| ('\u{2000}' as u32) <= (c as u32) <= ('\u{200a}' as u32)
    ||| c == '\u{2028}'
    ||| c == '\u{2029}'
    ||| c == '\u{202f}'
    ||| c == '\u{205f}'
    ||| c == '\u{3000}'
}

/// Whether one character is whitespace.
pub fn is_space_char(c: char) -> (b: bool)
    ensures
        b == is_space(c),
{
    match c {
        ' ' | '\t' | '\n' | '\u{b}' | '\u{c}' | '\r' | '\u{85}' | '\u{a0}' | '\u{1680}' => true,
        '\u{2000}'..='\u{200a}' => true,
        '\u{2028}' | '\u{2029}' | '\u{202f}' | '\u{205f}' | '\u{3000}' => true,
        _ => false,
    }
}

/// The first position at or after `i` holding a non-whitespace character,
/// or the length when only whitespace remains.
pub open spec fn next_non_space(s: Seq<char>, i: int) -> int
    recommends
        0 <= i <= s.len(),
    decreases s.len() - i,
{
    if i < 0 || i >= s.len() {
        s.len() as int
    } else if is_space(s[i]) {
        next_non_space(s, i + 1)
    } else {
        i
    }
}

/// The first position at or after `i` holding a whitespace character, or the
/// length when none follows.
pub open spec fn next_space(s: Seq<char>, i: int) -> int
    recommends
        0 <= i <= s.len(),
    decreases s.len() - i,
{
    if i < 0 || i >= s.len() {
        s.len() as int
    } else if !is_space(s[i]) {
        next_space(s, i + 1)
    } else {
        i
    }
}

/// The first position at or after `i` holding a newline, or the length when
/// none follows.
pub open spec fn next_newline(s: Seq<char>, i: int) -> int
    recommends
        0 <= i <= s.len(),
    decreases s.len() - i,
{
    if i < 0 || i >= s.len() {
        s.len() as int
    } else if s[i] == '\n' {
        i
    } else {
        next_newline(s, i + 1)
    }
}

pub proof fn lemma_next_non_space_is(s: Seq<char>, i: int, j: int)
    requires
        0 <= i <= j <= s.len(),
        forall|k: int| i <= k < j ==> is_space(#[trigger] s[k]),
        j == s.len() || !is_space(s[j]),
    ensures
        next_non_space(s, i) == j,
    decreases j - i,
{
    if i < j {
        lemma_next_non_space_is(s, i + 1, j);
    }
}

pub proof fn lemma_next_space_is(s: Seq<char>, i: int, j: int)
    requires
        0 <= i <= j <= s.len(),
        forall|k: int| i <= k < j ==> !is_space(#[trigger] s[k]),
        j == s.len() || is_space(s[j]),
    ensures
        next_space(s, i) == j,
    decreases j - i,
{
    if i < j {
        lemma_next_space_is(s, i + 1, j);
    }
}

pub proof fn lemma_next_newline_is(s: Seq<char>, i: int, j: int)
    requires
        0 <= i <= j <= s.len(),
        forall|k: int| i <= k < j ==> #[trigger] s[k] != '\n',
        j == s.len() || s[j] == '\n',
    ensures
        next_newline(s, i) == j,
    decreases j - i,
{
    if i < j {
        lemma_next_newline_is(s, i + 1, j);
    }
}

/// The first two whitespace-delimited fields of a line, or nothing when the
/// line holds fewer than two; anything after the second field is ignored.
pub open spec fn two_tokens(line: Seq<char>) -> Option<(Seq<char>, Seq<char>)> {
    let a = next_non_space(line, 0);
    if a == line.len() {
        None
    } else {
        let b = next_space(line, a);
        let c = next_non_space(line, b);
        if c == line.len() {
            None
        } else {
            let d = next_space(line, c);
            Some((line.subrange(a, b), line.subrange(c, d)))
        }
    }
}

/// The first two whitespace-delimited fields of a line.
pub fn first_two_tokens(line: &str) -> (r: Option<(String, String)>)
    ensures
        r matches Some(pair) ==> two_tokens(line@) == Some((pair.0@, pair.1@)),
        r is None ==> two_tokens(line@) is None,
{
    let n = line.unicode_len();
    let mut a: usize = 0;
    while a < n && is_space_char(line.get_char(a))
        invariant
            n == line@.len(),
            0 <= a <= n,
            forall|k: int| 0 <= k < a ==> is_space(#[trigger] line@[k]),
        decreases n - a,
    {
        a += 1;
    }
    proof {
        lemma_next_non_space_is(line@, 0, a as int);
    }
    if a == n {
        return None;
    }
    let mut b: usize = a;
    while b < n && !is_space_char(line.get_char(b))
        invariant
            n == line@.len(),
            a <= b <= n,
            forall|k: int| a <= k < b ==> !is_space(#[trigger] line@[k]),
        decreases n - b,
    {
        b += 1;
    }
    proof {
        lemma_next_space_is(line@, a as int, b as int);
    }
    let mut c: usize = b;
    while c < n && is_space_char(line.get_char(c))
        invariant
            n == line@.len(),
            b <= c <= n,
            forall|k: int| b <= k < c ==> is_space(#[trigger] line@[k]),
        decreases n - c,
    {
        c += 1;
    }
    proof {
        lemma_next_non_space_is(line@, b as int, c as int);
    }
    if c == n {
        return None;
    }
    let mut d: usize = c;
    while d < n && !is_space_char(line.get_char(d))
        invariant
            n == line@.len(),
            c <= d <= n,
            forall|k: int| c <= k < d ==> !is_space(#[trigger] line@[k]),
        decreases n - d,
    {
        d += 1;
    }
    proof {
        lemma_next_space_is(line@, c as int, d as int);
    }
    let name = line.substring_char(a, b).to_owned();
    let token = line.substring_char(c, d).to_owned();
    Some((name, token))
}

/// Whether the text holds the given character anywhere.
pub fn contains_char(s: &str, needle: char) -> (b: bool)
    ensures
        b == s@.contains(needle),
{
    let n = s.unicode_len();
    let mut i: usize = 0;
    while i < n
        invariant
            n == s@.len(),
            0 <= i <= n,
            forall|k: int| 0 <= k < i ==> #[trigger] s@[k] != needle,
        decreases n - i,
    {
        if s.get_char(i) == needle {
            proof {
                assert(s@[i as int] == needle);
            }
            return true;
        }
        i += 1;
    }
    proof {
        assert(forall|k: int| 0 <= k < s@.len() ==> #[trigger] s@[k] != needle);
    }
    false
}

/// A line with its line ending removed: the text up to a newline, less one
/// carriage return directly before that newline.  (On a final line that no
/// newline ends, a trailing carriage return is stripped here as well, where
/// `str::lines` would keep it; a carriage return is whitespace, so no parsed
/// palette can tell the difference.)
pub open spec fn strip_cr(l: Seq<char>) -> Seq<char> {
    if l.len() > 0 && l[l.len() - 1] == '\r' {
        l.drop_last()
    } else {
        l
    }
}

/// The lines of a text: split at every newline, each line's trailing
/// carriage return removed, and no empty line after a final newline.
pub open spec fn split_lines(s: Seq<char>) -> Seq<Seq<char>>
    decreases s.len(),
{
    if s.len() == 0 {
        Seq::empty()
    } else {
        let i = next_newline(s, 0);
        if 0 <= i < s.len() {
            seq![strip_cr(s.take(i))] + split_lines(s.skip(i + 1))
        } else {
            seq![strip_cr(s)]
        }
    }
}

/// Splits a text into its lines.
pub fn split_lines_exec(s: &str) -> (lines: Vec<String>)
    ensures
        lines.deep_view() == split_lines(s@),
{
    let n = s.unicode_len();
    let mut lines: Vec<String> = Vec::new();
    let mut start: usize = 0;
    proof {
        assert(lines.deep_view() =~= Seq::<Seq<char>>::empty());
        assert(s@.skip(0) =~= s@);
        assert(split_lines(s@) =~= lines.deep_view() + split_lines(s@.skip(0)));
    }
    while start < n
        invariant
            n == s@.len(),
            0 <= start <= n,
            split_lines(s@) =~= lines.deep_view() + split_lines(s@.skip(start as int)),
        decreases n - start,
    {
        let ghost prev_lines = lines.deep_view();
        let ghost rest = s@.skip(start as int);
        let mut i: usize = start;
        while i < n && s.get_char(i) != '\n'
            invariant
                n == s@.len(),
                start <= i <= n,
                forall|k: int| start <= k < i ==> #[trigger] s@[k] != '\n',
            decreases n - i,
        {
            i += 1;
        }
        let mut end: usize = i;
        if end > start && s.get_char(end - 1) == '\r' {
            end = end - 1;
        }
        let piece = s.substring_char(start, end).to_owned();
        proof {
            assert forall|k: int| 0 <= k < i - start implies #[trigger] rest[k] != '\n' by {
                assert(rest[k] == s@[start + k]);
            }
            if i < n {
                assert(rest[i - start] == s@[i as int]);
            }
            lemma_next_newline_is(rest, 0, i - start as int);
            assert(piece@ =~= strip_cr(rest.take(i - start as int)));
        }
        lines.push(piece);
        proof {
            assert(lines.deep_view() =~= prev_lines.push(piece@));
            if i < n {
                assert(rest.skip(i - start as int + 1) =~= s@.skip(i as int + 1));
                assert(split_lines(rest) =~= seq![piece@] + split_lines(s@.skip(i as int + 1)));
            } else {
                assert(rest.take(i - start as int) =~= rest);
                assert(split_lines(rest) =~= seq![piece@]);
                assert(s@.skip(n as int) =~= Seq::<char>::empty());
            }
        }
        if i < n {
            start = i + 1;
        } else {
            start = n;
        }
    }
    proof {
        assert(s@.skip(n as int) =~= Seq::<char>::empty());
        assert(lines.deep_view() =~= split_lines(s@));
    }
    lines
}

} // verus!
