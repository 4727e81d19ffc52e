//! Character-level helpers on strings.
use vstd::prelude::*;
use vstd::string::*;

verus! {

/// The characters of `s`.
pub fn str_chars(s: &str) -> (r: Vec<char>)
    ensures
        r@ == s@,
{
    let n = s.unicode_len();
    let mut out: Vec<char> = Vec::new();
    let mut i: usize = 0;
    while i < n
        invariant
            n == s@.len(),
            i <= n,
            out@ == s@.subrange(0, i as int),
        decreases n - i,
    {
        out.push(s.get_char(i));
        i = i + 1;
    }
    assert(out@ == s@);
    out
}

/// Relies on `String: FromIterator<char>`, which appends the characters in order.
#[verifier::external_body]
pub(crate) fn string_from_chars(v: &[char]) -> (r: String)
    ensures
        r@ == v@,
{
    v.iter().collect()
}

/// Whether the characters `a` spell `b`.
pub fn chars_eq_str(a: &[char], b: &str) -> (r: bool)
    ensures
        r == (a@ == b@),
{
    let n = b.unicode_len();
    if a.len() != n {
        return false;
    }
    let mut i: usize = 0;
    while i < n
        invariant
            n == b@.len(),
            a@.len() == n,
            i <= n,
            forall|j: int| 0 <= j < i ==> a@[j] == b@[j],
        decreases n - i,
    {
        if a[i] != b.get_char(i) {
            return false;
        }
        i = i + 1;
    }
    assert(a@ == b@);
    true
}

/// Index of the first `c` in `s` at or after `from`, or `s.len()` when there is none.
pub open spec fn find_char_from(s: Seq<char>, c: char, from: int) -> int
    decreases s.len() - from,
{
    if from >= s.len() {
        s.len() as int
    } else if s[from] == c {
        from
    } else {
        find_char_from(s, c, from + 1)
    }
}

pub proof fn lemma_find_char_from(s: Seq<char>, c: char, from: int, i: int)
    requires
        0 <= from <= i <= s.len(),
        forall|j: int| from <= j < i ==> s[j] != c,
        i == s.len() || s[i] == c,
    ensures
        find_char_from(s, c, from) == i,
    decreases i - from,
{
    if from < i {
        lemma_find_char_from(s, c, from + 1, i);
    }
}

/// Index of the first `c` in `s` at or after `from`, or `s.len()`.
pub fn find_char(s: &[char], c: char, from: usize) -> (r: usize)
    requires
        from <= s@.len(),
    ensures
        r == find_char_from(s@, c, from as int),
        from <= r <= s@.len(),
{
    let mut i = from;
    while i < s.len() && s[i] != c
        invariant
            from <= i <= s@.len(),
            forall|j: int| from <= j < i ==> s@[j] != c,
        decreases s@.len() - i,
    {
        i = i + 1;
    }
    proof {
        lemma_find_char_from(s@, c, from as int, i as int);
    }
    i
}

/// The decimal digit for `d`.
pub open spec fn digit_char(d: nat) -> char {
    if d == 0 { '0' }
    else if d == 1 { '1' }
    else if d == 2 { '2' }
    else if d == 3 { '3' }
    else if d == 4 { '4' }
    else if d == 5 { '5' }
    else if d == 6 { '6' }
    else if d == 7 { '7' }
    else if d == 8 { '8' }
    else { '9' }
}

/// The decimal notation of `n`, without leading zeros.
pub open spec fn decimal(n: nat) -> Seq<char>
    decreases n,
{
    if n < 10 {
        seq![digit_char(n)]
    } else {
        decimal(n / 10).push(digit_char(n % 10))
    }
}

fn digit(d: usize) -> (c: char)
    requires
        d < 10,
    ensures
        c == digit_char(d as nat),
{
    if d == 0 { '0' }
    else if d == 1 { '1' }
    else if d == 2 { '2' }
    else if d == 3 { '3' }
    else if d == 4 { '4' }
    else if d == 5 { '5' }
    else if d == 6 { '6' }
    else if d == 7 { '7' }
    else if d == 8 { '8' }
    else { '9' }
}

/// Appends the decimal notation of `n` to `out`.
pub fn push_decimal(out: &mut Vec<char>, n: usize)
    ensures
        final(out)@ == old(out)@ + decimal(n as nat),
    decreases n,
{
    if n >= 10 {
        push_decimal(out, n / 10);
    }
    out.push(digit(n % 10));
    proof {
        if n >= 10 {
            assert(old(out)@ + decimal(n as nat) == (old(out)@ + decimal((n / 10) as nat)).push(
                digit_char((n % 10) as nat),
            ));
        } else {
            assert(old(out)@ + decimal(n as nat) == old(out)@.push(digit_char(n as nat)));
        }
    }
}

/// Appends the characters of `s` to `out`.
pub fn push_str(out: &mut Vec<char>, s: &str)
    ensures
        final(out)@ == old(out)@ + s@,
{
    let n = s.unicode_len();
    let mut i: usize = 0;
    let ghost start = out@;
    while i < n
        invariant
            n == s@.len(),
            i <= n,
            out@ == start + s@.subrange(0, i as int),
        decreases n - i,
    {
        out.push(s.get_char(i));
        i = i + 1;
        assert(out@ == start + s@.subrange(0, i as int));
    }
    assert(s@.subrange(0, n as int) == s@);
}

/// A line as `str::lines` gives it: a `\r` before the `\n` that ends it is dropped.
pub open spec fn strip_cr(line: Seq<char>) -> Seq<char> {
    if line.len() > 0 && line.last() == '\r' { line.drop_last() } else { line }
}

/// The lines of `s`, as `str::lines` splits them: at each `\n`, with no empty
/// line after a final `\n`.
pub open spec fn lines_of(s: Seq<char>) -> Seq<Seq<char>>
    decreases s.len(),
{
    if s.len() == 0 {
        seq![]
    } else {
        let p = find_char_from(s, '\n', 0);
        if p < 0 || p >= s.len() {
            seq![s]
        } else {
            seq![strip_cr(s.subrange(0, p))] + lines_of(s.subrange(p + 1, s.len() as int))
        }
    }
}

/// The lines joined with `\n` between them.
pub open spec fn join_lines(ls: Seq<Seq<char>>) -> Seq<char>
    decreases ls.len(),
{
    if ls.len() == 0 {
        seq![]
    } else if ls.len() == 1 {
        ls[0]
    } else {
        join_lines(ls.drop_last()) + seq!['\n'] + ls.last()
    }
}

/// The last `n` lines of `s` (all of them when there are fewer), joined with `\n`.
pub open spec fn last_lines(s: Seq<char>, n: nat) -> Seq<char> {
    let ls = lines_of(s);
    let start = if ls.len() > n { ls.len() - n } else { 0 };
    join_lines(ls.subrange(start, ls.len() as int))
}

pub proof fn lemma_find_char_shift(s: Seq<char>, c: char, i: int, j: int)
    requires
        0 <= i <= j <= s.len(),
    ensures
        find_char_from(s.subrange(i, s.len() as int), c, j - i) == find_char_from(s, c, j) - i,
    decreases s.len() - j,
{
    if j < s.len() && s[j] != c {
        lemma_find_char_shift(s, c, i, j + 1);
    }
}

pub proof fn lemma_find_char_bounds(s: Seq<char>, c: char, i: int)
    requires
        0 <= i <= s.len(),
    ensures
        i <= find_char_from(s, c, i) <= s.len(),
        find_char_from(s, c, i) < s.len() ==> s[find_char_from(s, c, i)] == c,
    decreases s.len() - i,
{
    if i < s.len() && s[i] != c {
        lemma_find_char_bounds(s, c, i + 1);
    }
}

/// The lines of `s`, each as its characters.
pub fn split_lines(s: &[char]) -> (r: Vec<Vec<char>>)
    ensures
        r@.map_values(|l: Vec<char>| l@) == lines_of(s@),
{
    let mut out: Vec<Vec<char>> = Vec::new();
    let mut i: usize = 0;
    assert(s@.subrange(0, s@.len() as int) == s@);
    while i < s.len()
        invariant
            i <= s@.len(),
            out@.map_values(|l: Vec<char>| l@) + lines_of(s@.subrange(i as int, s@.len() as int))
                == lines_of(s@),
        decreases s@.len() - i,
    {
        let ghost rest = s@.subrange(i as int, s@.len() as int);
        let p = find_char(s, '\n', i);
        proof {
            lemma_find_char_shift(s@, '\n', i as int, i as int);
            lemma_find_char_bounds(s@, '\n', i as int);
        }
        let end = if p < s.len() && p > i && s[p - 1] == '\r' { p - 1 } else { p };
        let mut line: Vec<char> = Vec::new();
        let mut k = i;
        while k < end
            invariant
                i <= k <= end <= s@.len(),
                line@ == s@.subrange(i as int, k as int),
            decreases end - k,
        {
            line.push(s[k]);
            k = k + 1;
        }
        let ghost before = out@.map_values(|l: Vec<char>| l@);
        out.push(line);
        assert(out@.map_values(|l: Vec<char>| l@) =~= before.push(s@.subrange(i as int, end as int)));
        if p >= s.len() {
            assert(lines_of(rest) == seq![rest]);
            assert(s@.subrange(i as int, end as int) == rest);
            i = s.len();
            assert(lines_of(s@.subrange(i as int, s@.len() as int)) =~= seq![]);
            assert(before.push(rest) + seq![] =~= before + seq![rest]);
        } else {
            let ghost old_i = i as int;
            assert(strip_cr(rest.subrange(0, p - old_i)) =~= s@.subrange(old_i, end as int));
            assert(rest.subrange(p - old_i + 1, rest.len() as int) =~= s@.subrange(p + 1, s@.len() as int));
            assert(lines_of(rest) == seq![strip_cr(rest.subrange(0, p - old_i))] + lines_of(
                rest.subrange(p - old_i + 1, rest.len() as int),
            ));
            i = p + 1;
            assert(before + lines_of(rest) =~= before.push(s@.subrange(old_i, end as int)) + lines_of(
                s@.subrange(i as int, s@.len() as int),
            ));
        }
    }
    assert(lines_of(s@.subrange(i as int, s@.len() as int)) =~= seq![]);
    assert(out@.map_values(|l: Vec<char>| l@) + seq![] =~= out@.map_values(|l: Vec<char>| l@));
    out
}

/// The lines `ls[from..]` joined with `\n`.
pub fn join_from(ls: &Vec<Vec<char>>, from: usize) -> (r: Vec<char>)
    requires
        from <= ls@.len(),
    ensures
        r@ == join_lines(ls@.map_values(|l: Vec<char>| l@).subrange(from as int, ls@.len() as int)),
{
    let ghost views = ls@.map_values(|l: Vec<char>| l@);
    let mut out: Vec<char> = Vec::new();
    let mut i = from;
    while i < ls.len()
        invariant
            from <= i <= ls@.len(),
            views == ls@.map_values(|l: Vec<char>| l@),
            out@ == join_lines(views.subrange(from as int, i as int)),
        decreases ls@.len() - i,
    {
        let ghost prev = views.subrange(from as int, i as int);
        let ghost next = views.subrange(from as int, i + 1);
        assert(next.drop_last() == prev);
        assert(next.last() == ls@[i as int]@);
        if i > from {
            out.push('\n');
        } else {
            assert(prev.len() == 0);
        }
        let line = &ls[i];
        let mut k: usize = 0;
        let ghost base = out@;
        while k < line.len()
            invariant
                k <= line@.len(),
                out@ == base + line@.subrange(0, k as int),
            decreases line@.len() - k,
        {
            out.push(line[k]);
            k = k + 1;
        }
        assert(line@.subrange(0, line@.len() as int) == line@);
        i = i + 1;
        assert(out@ =~= join_lines(views.subrange(from as int, i as int)));
    }
    out
}

/// The last `n` lines of `s`, joined with `\n`.
pub fn last_lines_of(s: &str, n: usize) -> (r: String)
    ensures
        r@ == last_lines(s@, n as nat),
{
    let cs = str_chars(s);
    let ls = split_lines(cs.as_slice());
    let start = if ls.len() > n { ls.len() - n } else { 0 };
    let joined = join_from(&ls, start);
    string_from_chars(joined.as_slice())
}

/// The number of lines of `s`, as `str::lines` counts them.
pub fn line_count(s: &str) -> (r: usize)
    ensures
        r == lines_of(s@).len(),
{
    let cs = str_chars(s);
    let ls = split_lines(cs.as_slice());
    ls.len()
}

} // verus!
