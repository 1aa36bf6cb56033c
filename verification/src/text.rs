//! Whitespace, trimming and lines over sequences of characters.

use vstd::prelude::*;

verus! {

/// Whether `c` is white space: the code points of Unicode's `White_Space`
/// property.
pub open spec fn is_space(c: char) -> bool {
    let u = c as u32;
    ||| 0x09 <= u <= 0x0D
    ||| u == 0x20
    ||| u == 0x85
    ||| u == 0xA0
    ||| u == 0x1680
    ||| 0x2000 <= u <= 0x200A
    ||| u == 0x2028
    ||| u == 0x2029
    ||| u == 0x202F
    ||| u == 0x205F
    ||| u == 0x3000
}

/// The line terminator of the stored form.
pub open spec fn newline() -> char {
    '\n'
}

/// Number of white-space characters at the start of `s`.
pub open spec fn leading_spaces(s: Seq<char>) -> nat
    decreases s.len(),
{
    if s.len() > 0 && is_space(s[0]) {
        1 + leading_spaces(s.drop_first())
    } else {
        0
    }
}

/// Number of white-space characters at the end of `s`.
pub open spec fn trailing_spaces(s: Seq<char>) -> nat
    decreases s.len(),
{
    if s.len() > 0 && is_space(s.last()) {
        1 + trailing_spaces(s.drop_last())
    } else {
        0
    }
}

/// `s` without its leading white space.
pub open spec fn trim_start(s: Seq<char>) -> Seq<char> {
    s.skip(leading_spaces(s) as int)
}

/// `s` without its trailing white space.
pub open spec fn trim_end(s: Seq<char>) -> Seq<char> {
    s.take(s.len() - trailing_spaces(s))
}

/// `s` without the white space that surrounds it.
pub open spec fn trim(s: Seq<char>) -> Seq<char> {
    trim_end(trim_start(s))
}

/// Whether `s` holds no line terminator.
pub open spec fn single_line(s: Seq<char>) -> bool {
    forall|i: int| 0 <= i < s.len() ==> s[i] != newline()
}

/// Length of the first line of `s`: the number of characters before the
/// first line terminator, or all of them where there is none.
pub open spec fn line_len(s: Seq<char>) -> nat
    decreases s.len(),
{
    if s.len() == 0 || s[0] == newline() {
        0
    } else {
        1 + line_len(s.drop_first())
    }
}

/// What follows the first line of `s` and its terminator.
pub open spec fn after_line(s: Seq<char>) -> Seq<char> {
    if line_len(s) < s.len() {
        s.skip(line_len(s) as int + 1)
    } else {
        Seq::empty()
    }
}

/// The lines of `s`, without their terminators. A terminator at the very
/// end closes the last line and opens no further one.
pub open spec fn lines(s: Seq<char>) -> Seq<Seq<char>>
    decreases s.len(),
{
    if s.len() == 0 {
        Seq::empty()
    } else {
        seq![s.take(line_len(s) as int)] + lines(after_line(s))
    }
}

/// If `a` characters of white space open `s` and the next one is none,
/// `a` is the number of leading spaces.
pub proof fn lemma_leading_spaces(s: Seq<char>, a: int)
    requires
        0 <= a <= s.len(),
        forall|i: int| 0 <= i < a ==> is_space(s[i]),
        a == s.len() || !is_space(s[a]),
    ensures
        leading_spaces(s) == a,
    decreases a,
{
    if a > 0 {
        lemma_leading_spaces(s.drop_first(), a - 1);
    }
}

/// If everything from `b` on is white space and the character before `b`
/// is none, `s.len() - b` is the number of trailing spaces.
pub proof fn lemma_trailing_spaces(s: Seq<char>, b: int)
    requires
        0 <= b <= s.len(),
        forall|i: int| b <= i < s.len() ==> is_space(s[i]),
        b == 0 || !is_space(s[b - 1]),
    ensures
        trailing_spaces(s) == s.len() - b,
    decreases s.len() - b,
{
    if b < s.len() {
        lemma_trailing_spaces(s.drop_last(), b);
    }
}

/// The trimmed form of `s` is the range between its first and its last
/// character that is no white space.
pub proof fn lemma_trim_is_range(s: Seq<char>, a: int, b: int)
    requires
        0 <= a <= b <= s.len(),
        forall|i: int| 0 <= i < a ==> is_space(s[i]),
        forall|i: int| b <= i < s.len() ==> is_space(s[i]),
        a == s.len() || !is_space(s[a]),
        b == a || !is_space(s[b - 1]),
    ensures
        trim(s) == s.subrange(a, b),
{
    lemma_leading_spaces(s, a);
    let rest = s.skip(a);
    lemma_trailing_spaces(rest, b - a);
    assert(rest.take(b - a) =~= s.subrange(a, b));
}

/// If no terminator stands before `n` and one stands at `n`, or `s` ends
/// there, the first line has `n` characters.
pub proof fn lemma_line_len(s: Seq<char>, n: int)
    requires
        0 <= n <= s.len(),
        forall|i: int| 0 <= i < n ==> s[i] != newline(),
        n == s.len() || s[n] == newline(),
    ensures
        line_len(s) == n,
    decreases n,
{
    if n > 0 {
        lemma_line_len(s.drop_first(), n - 1);
    }
}

/// The leading spaces of `s` are white space, they are no more than `s`
/// holds, and the character after them is none.
pub proof fn lemma_leading_spaces_end(s: Seq<char>)
    ensures
        leading_spaces(s) <= s.len(),
        forall|i: int| 0 <= i < leading_spaces(s) ==> is_space(s[i]),
        leading_spaces(s) == s.len() || !is_space(s[leading_spaces(s) as int]),
    decreases s.len(),
{
    if s.len() > 0 && is_space(s[0]) {
        let rest = s.drop_first();
        lemma_leading_spaces_end(rest);
        assert forall|i: int| 0 <= i < leading_spaces(s) implies is_space(s[i]) by {
            if i > 0 {
                assert(s[i] == rest[i - 1]);
            }
        }
        if leading_spaces(s) < s.len() {
            assert(s[leading_spaces(s) as int] == rest[leading_spaces(rest) as int]);
        }
    }
}

/// The trailing spaces of `s` are white space, they are no more than `s`
/// holds, and the character before them is none.
pub proof fn lemma_trailing_spaces_start(s: Seq<char>)
    ensures
        trailing_spaces(s) <= s.len(),
        forall|i: int| s.len() - trailing_spaces(s) <= i < s.len() ==> is_space(s[i]),
        trailing_spaces(s) == s.len() || !is_space(s[s.len() - trailing_spaces(s) - 1]),
    decreases s.len(),
{
    if s.len() > 0 && is_space(s.last()) {
        let rest = s.drop_last();
        lemma_trailing_spaces_start(rest);
        assert forall|i: int| s.len() - trailing_spaces(s) <= i < s.len() implies is_space(
            s[i],
        ) by {
            if i < s.len() - 1 {
                assert(s[i] == rest[i]);
            }
        }
        if trailing_spaces(s) < s.len() {
            assert(s[s.len() - trailing_spaces(s) - 1] == rest[rest.len() - trailing_spaces(rest)
                - 1]);
        }
    }
}

/// The trimmed form of `s` is a range of `s` that neither starts nor ends
/// with white space.
pub proof fn lemma_trim_shape(s: Seq<char>)
    ensures
        exists|a: int, b: int| 0 <= a <= b <= s.len() && trim(s) == #[trigger] s.subrange(a, b),
        trim(s).len() > 0 ==> !is_space(trim(s)[0]) && !is_space(trim(s).last()),
{
    lemma_leading_spaces_end(s);
    let a = leading_spaces(s) as int;
    let rest = s.skip(a);
    lemma_trailing_spaces_start(rest);
    let b = s.len() - trailing_spaces(rest);
    if rest.len() > 0 {
        assert(rest[0] == s[a]);
        if trailing_spaces(rest) == rest.len() {
            assert(is_space(rest[0]));
        }
    }
    assert(trim(s) =~= s.subrange(a, b));
}

/// Trimming what is trimmed changes nothing.
pub proof fn lemma_trim_twice(s: Seq<char>)
    ensures
        trim(trim(s)) == trim(s),
{
    lemma_trim_shape(s);
    let t = trim(s);
    lemma_trim_is_range(t, 0, t.len() as int);
    assert(t.subrange(0, t.len() as int) =~= t);
}

/// The trimmed form of a single line is a single line.
pub proof fn lemma_trim_single_line(s: Seq<char>)
    requires
        single_line(s),
    ensures
        single_line(trim(s)),
{
    lemma_trim_shape(s);
    let (a, b) = choose|a: int, b: int|
        0 <= a <= b <= s.len() && trim(s) == #[trigger] s.subrange(a, b);
    assert forall|i: int| 0 <= i < trim(s).len() implies trim(s)[i] != newline() by {
        assert(trim(s)[i] == s[a + i]);
    }
}

/// The first line of `s` ends within `s`, holds no terminator, and is
/// followed by one unless `s` ends there.
pub proof fn lemma_first_line(s: Seq<char>)
    ensures
        line_len(s) <= s.len(),
        single_line(s.take(line_len(s) as int)),
        line_len(s) == s.len() || s[line_len(s) as int] == newline(),
    decreases s.len(),
{
    if s.len() > 0 && s[0] != newline() {
        let rest = s.drop_first();
        lemma_first_line(rest);
        let line = s.take(line_len(s) as int);
        assert forall|i: int| 0 <= i < line.len() implies line[i] != newline() by {
            if i > 0 {
                assert(line[i] == rest.take(line_len(rest) as int)[i - 1]);
            }
        }
        if line_len(s) < s.len() {
            assert(s[line_len(s) as int] == rest[line_len(rest) as int]);
        }
    }
}

/// Whether `c` is white space.
pub fn is_space_char(c: char) -> (b: bool)
    ensures
        b == is_space(c),
{
    let u: u32 = c as u32;
    (0x09 <= u && u <= 0x0D) || u == 0x20 || u == 0x85 || u == 0xA0 || u == 0x1680 || (0x2000 <= u
        && u <= 0x200A) || u == 0x2028 || u == 0x2029 || u == 0x202F || u == 0x205F || u == 0x3000
}

/// The bounds of the trimmed form of `s[from..to]`, as indices into `s`.
pub fn trim_range(s: &[char], from: usize, to: usize) -> (r: (usize, usize))
    requires
        from <= to <= s@.len(),
    ensures
        from <= r.0 <= r.1 <= to,
        s@.subrange(r.0 as int, r.1 as int) == trim(s@.subrange(from as int, to as int)),
        r.0 < r.1 ==> !is_space(s@[r.0 as int]) && !is_space(s@[r.1 - 1]),
{
    let mut a: usize = from;
    while a < to && is_space_char(s[a])
        invariant
            from <= a <= to <= s@.len(),
            forall|i: int| from <= i < a ==> is_space(s@[i]),
        decreases to - a,
    {
        a += 1;
    }
    let mut b: usize = to;
    while b > a && is_space_char(s[b - 1])
        invariant
            a <= b <= to <= s@.len(),
            forall|i: int| b <= i < to ==> is_space(s@[i]),
        decreases b,
    {
        b -= 1;
    }
    proof {
        let part = s@.subrange(from as int, to as int);
        lemma_trim_is_range(part, a - from, b - from);
        assert(part.subrange(a - from, b - from) =~= s@.subrange(a as int, b as int));
    }
    (a, b)
}

/// The index of the first line terminator in `s[from..]`, or the length of
/// `s` where there is none.
pub fn line_end(s: &[char], from: usize) -> (end: usize)
    requires
        from <= s@.len(),
    ensures
        from <= end <= s@.len(),
        end - from == line_len(s@.skip(from as int)),
        single_line(s@.subrange(from as int, end as int)),
        end < s@.len() ==> s@[end as int] == newline(),
{
    let mut j: usize = from;
    while j < s.len() && s[j] != '\n'
        invariant
            from <= j <= s@.len(),
            forall|i: int| from <= i < j ==> s@[i] != newline(),
        decreases s@.len() - j,
    {
        j += 1;
    }
    proof {
        lemma_line_len(s@.skip(from as int), j - from);
    }
    j
}

/// Whether `s[from..to]` holds no line terminator.
pub fn is_single_line(s: &[char], from: usize, to: usize) -> (b: bool)
    requires
        from <= to <= s@.len(),
    ensures
        b == single_line(s@.subrange(from as int, to as int)),
{
    let end = line_end(s, from);
    proof {
        let part = s@.subrange(from as int, to as int);
        if end < to {
            assert(part[end - from] == newline());
        } else {
            assert forall|i: int| 0 <= i < part.len() implies part[i] != newline() by {
                assert(s@.subrange(from as int, end as int)[i] == part[i]);
            }
        }
    }
    end >= to
}

} // verus!
