//! Character-level text operations on `Seq<char>` models, with exact contracts.
use vstd::prelude::*;

verus! {

/// Unicode `White_Space`: the characters that `char::is_whitespace` accepts.
pub open spec fn is_space(c: char) -> bool {
    let u = c as u32;
    (0x09 <= u && u <= 0x0d) || u == 0x20 || u == 0x85 || u == 0xa0 || u == 0x1680
        || (0x2000 <= u && u <= 0x200a) || u == 0x2028 || u == 0x2029 || u == 0x202f
        || u == 0x205f || u == 0x3000
}

/// `s` without its leading white space.
pub open spec fn trim_start(s: Seq<char>) -> Seq<char>
    decreases s.len(),
{
    if s.len() > 0 && is_space(s[0]) {
        trim_start(s.drop_first())
    } else {
        s
    }
}

/// `s` without its trailing white space.
pub open spec fn trim_end(s: Seq<char>) -> Seq<char>
    decreases s.len(),
{
    if s.len() > 0 && is_space(s.last()) {
        trim_end(s.drop_last())
    } else {
        s
    }
}

/// `s` without white space at either end.
pub open spec fn trim(s: Seq<char>) -> Seq<char> {
    trim_end(trim_start(s))
}

pub fn is_space_char(c: char) -> (r: bool)
    ensures
        r == is_space(c),
{
    let u = c as u32;
    (0x09 <= u && u <= 0x0d) || u == 0x20 || u == 0x85 || u == 0xa0 || u == 0x1680
        || (0x2000 <= u && u <= 0x200a) || u == 0x2028 || u == 0x2029 || u == 0x202f
        || u == 0x205f || u == 0x3000
}

/// Relies on `String`'s `FromIterator<char>`: the string holds the characters
/// of `v`, in order.
#[verifier::external_body]
pub(crate) fn string_from_chars(v: Vec<char>) -> (r: String)
    ensures
        r@ == v@,
{
    String::from_iter(v)
}

/// The characters of `s`, in order.
pub fn chars_of(s: &str) -> (r: Vec<char>)
    ensures
        r@ == s@,
{
    let mut v: Vec<char> = Vec::new();
    for c in it: s.chars()
        invariant
            v@ == it.seq().take(it.index() as int),
            it.seq() == s@,
    {
        v.push(c);
    }
    v
}

/// The characters `s[lo..hi]` as a new vector.
pub fn copy_range(s: &Vec<char>, lo: usize, hi: usize) -> (r: Vec<char>)
    requires
        lo <= hi <= s.len(),
    ensures
        r@ == s@.subrange(lo as int, hi as int),
{
    let mut v: Vec<char> = Vec::new();
    let mut i: usize = lo;
    while i < hi
        invariant
            lo <= i <= hi <= s.len(),
            v@ == s@.subrange(lo as int, i as int),
        decreases hi - i,
    {
        v.push(s[i]);
        i = i + 1;
        assert(v@ =~= s@.subrange(lo as int, i as int));
    }
    v
}

/// Whether `a` and `b` hold the same characters.
pub fn same_chars(a: &Vec<char>, b: &Vec<char>) -> (r: bool)
    ensures
        r == (a@ == b@),
{
    if a.len() != b.len() {
        return false;
    }
    let mut i: usize = 0;
    while i < a.len()
        invariant
            i <= a.len() == b.len(),
            forall|j: int| 0 <= j < i ==> a@[j] == b@[j],
        decreases a.len() - i,
    {
        if a[i] != b[i] {
            return false;
        }
        i = i + 1;
    }
    assert(a@ =~= b@);
    true
}

/// `s` without white space at either end.
pub fn trim_chars(s: &Vec<char>) -> (r: Vec<char>)
    ensures
        r@ == trim(s@),
{
    let n = s.len();
    let mut i: usize = 0;
    assert(s@.subrange(0, n as int) =~= s@);
    while i < n && is_space_char(s[i])
        invariant
            i <= n == s.len(),
            trim_start(s@.subrange(i as int, n as int)) == trim_start(s@),
        decreases n - i,
    {
        assert(s@.subrange(i as int, n as int).drop_first() =~= s@.subrange(i + 1, n as int));
        i = i + 1;
    }
    assert(trim_start(s@) == s@.subrange(i as int, n as int));
    let mut j: usize = n;
    while j > i && is_space_char(s[j - 1])
        invariant
            i <= j <= n == s.len(),
            trim_end(s@.subrange(i as int, j as int)) == trim(s@),
        decreases j,
    {
        assert(s@.subrange(i as int, j as int).drop_last() =~= s@.subrange(i as int, j - 1));
        j = j - 1;
    }
    copy_range(s, i, j)
}

/// `m` stands in `s` at position `k`.
pub open spec fn occurs_at(s: Seq<char>, m: Seq<char>, k: int) -> bool {
    0 <= k && k + m.len() <= s.len() && s.subrange(k, k + m.len()) == m
}

/// `m` stands somewhere in `s`.
pub open spec fn contains(s: Seq<char>, m: Seq<char>) -> bool {
    exists|k: int| occurs_at(s, m, k)
}

/// `s` with every occurrence of `m` removed, matching from the left without
/// overlaps (what replacing `m` by the empty string gives).
pub open spec fn strip_all(s: Seq<char>, m: Seq<char>) -> Seq<char>
    decreases s.len(),
{
    if m.len() == 0 || s.len() < m.len() {
        s
    } else if s.take(m.len() as int) == m {
        strip_all(s.skip(m.len() as int), m)
    } else {
        seq![s[0]] + strip_all(s.skip(1), m)
    }
}

/// The part of `s` before the first `c`, or all of `s` where there is none.
pub open spec fn before_char(s: Seq<char>, c: char) -> Seq<char>
    decreases s.len(),
{
    if s.len() == 0 {
        s
    } else if s[0] == c {
        Seq::empty()
    } else {
        seq![s[0]] + before_char(s.drop_first(), c)
    }
}

/// The second of the fields that `c` separates in `s`: the text after the
/// first `c` up to the next `c` or the end; none where `s` holds no `c`.
pub open spec fn second_field(s: Seq<char>, c: char) -> Option<Seq<char>> {
    if s.contains(c) {
        Some(before_char(s.skip(before_char(s, c).len() as int + 1), c))
    } else {
        None
    }
}

/// Whether `m` stands in `s` at position `k`.
pub fn occurs_at_exec(s: &Vec<char>, m: &Vec<char>, k: usize) -> (r: bool)
    requires
        k + m.len() <= s.len(),
    ensures
        r == occurs_at(s@, m@, k as int),
{
    let mut j: usize = 0;
    while j < m.len()
        invariant
            k + m.len() <= s.len(),
            j <= m.len(),
            s@.subrange(k as int, k + j) == m@.subrange(0, j as int),
        decreases m.len() - j,
    {
        if s[k + j] != m[j] {
            assert(s@.subrange(k as int, k + m.len())[j as int] == s@[k + j]);
            return false;
        }
        assert(s@.subrange(k as int, k + j + 1) =~= s@.subrange(k as int, k + j).push(s@[k + j]));
        assert(m@.subrange(0, j + 1) =~= m@.subrange(0, j as int).push(m@[j as int]));
        j = j + 1;
    }
    assert(m@.subrange(0, m.len() as int) =~= m@);
    true
}

/// Whether `m` stands anywhere in `s`.
pub fn contains_exec(s: &Vec<char>, m: &Vec<char>) -> (r: bool)
    ensures
        r == contains(s@, m@),
{
    if m.len() > s.len() {
        return false;
    }
    let last = s.len() - m.len();
    let mut k: usize = 0;
    loop
        invariant
            last + m.len() == s.len(),
            k <= last,
            forall|t: int| 0 <= t < k ==> !#[trigger] occurs_at(s@, m@, t),
        decreases last - k,
    {
        if occurs_at_exec(s, m, k) {
            return true;
        }
        if k == last {
            return false;
        }
        k = k + 1;
    }
}

/// `s` with every occurrence of `m` removed, from the left.
pub fn strip_all_exec(s: &Vec<char>, m: &Vec<char>) -> (r: Vec<char>)
    ensures
        r@ == strip_all(s@, m@),
{
    let n = s.len();
    if m.len() == 0 {
        return copy_range(s, 0, n);
    }
    let mut acc: Vec<char> = Vec::new();
    let mut i: usize = 0;
    assert(s@.skip(0) =~= s@);
    while i < n
        invariant
            n == s.len(),
            m.len() > 0,
            i <= n,
            acc@ + strip_all(s@.skip(i as int), m@) == strip_all(s@, m@),
        decreases n - i,
    {
        let ghost rest = s@.skip(i as int);
        if m.len() <= n - i && occurs_at_exec(s, m, i) {
            assert(rest.take(m.len() as int) =~= s@.subrange(i as int, i + m.len()));
            assert(rest.skip(m.len() as int) =~= s@.skip(i + m.len()));
            i = i + m.len();
        } else {
            assert(rest.skip(1) =~= s@.skip(i + 1));
            if m.len() <= n - i {
                assert(rest.take(m.len() as int) =~= s@.subrange(i as int, i + m.len()));
            }
            assert(acc@.push(s@[i as int]) + strip_all(rest.skip(1), m@) =~= acc@ + (seq![rest[0]]
                + strip_all(rest.skip(1), m@)));
            acc.push(s[i]);
            i = i + 1;
        }
    }
    assert(acc@ + strip_all(s@.skip(n as int), m@) =~= acc@);
    acc
}

/// The first position at or after `from` that holds `c`, or the length of `s`.
pub fn find_char(s: &Vec<char>, from: usize, c: char) -> (j: usize)
    requires
        from <= s.len(),
    ensures
        from <= j <= s.len(),
        s@.subrange(from as int, j as int) == before_char(s@.skip(from as int), c),
        j < s.len() ==> s@[j as int] == c,
        forall|t: int| from <= t < j ==> s@[t] != c,
{
    let n = s.len();
    let mut i: usize = from;
    while i < n && s[i] != c
        invariant
            from <= i <= n == s.len(),
            before_char(s@.skip(from as int), c) == s@.subrange(from as int, i as int)
                + before_char(s@.skip(i as int), c),
            forall|t: int| from <= t < i ==> s@[t] != c,
        decreases n - i,
    {
        assert(s@.skip(i as int).drop_first() =~= s@.skip(i + 1));
        assert(s@.subrange(from as int, i + 1) =~= s@.subrange(from as int, i as int).push(s@[i as int]));
        assert(s@.subrange(from as int, i as int) + before_char(s@.skip(i as int), c)
            =~= s@.subrange(from as int, i + 1) + before_char(s@.skip(i + 1), c));
        i = i + 1;
    }
    assert(before_char(s@.skip(i as int), c) =~= Seq::<char>::empty());
    assert(s@.subrange(from as int, i as int) + Seq::<char>::empty() =~= s@.subrange(from as int, i as int));
    i
}

/// The second `c`-separated field of `s`.
pub fn second_field_exec(s: &Vec<char>, c: char) -> (r: Option<Vec<char>>)
    ensures
        match r {
            Some(v) => second_field(s@, c) == Some(v@),
            None => second_field(s@, c) is None,
        },
{
    let n = s.len();
    let j = find_char(s, 0, c);
    assert(s@.skip(0) =~= s@);
    if j == n {
        assert(!s@.contains(c));
        None
    } else {
        assert(s@.contains(c));
        let k = find_char(s, j + 1, c);
        Some(copy_range(s, j + 1, k))
    }
}

/// An ASCII decimal digit.
pub open spec fn is_digit(c: char) -> bool {
    0x30 <= (c as u32) && (c as u32) <= 0x39
}

pub open spec fn all_digits(s: Seq<char>) -> bool {
    forall|i: int| 0 <= i < s.len() ==> is_digit(#[trigger] s[i])
}

/// The number that the decimal digits `s` write.
pub open spec fn digits_value(s: Seq<char>) -> int
    decreases s.len(),
{
    if s.len() == 0 {
        0
    } else {
        digits_value(s.drop_last()) * 10 + ((s.last() as u32) - 0x30)
    }
}

/// What `str::parse::<i32>` gives: an optional `+` or `-`, then one or more
/// ASCII digits, whose value must fit in an `i32`.
pub open spec fn parse_i32(s: Seq<char>) -> Option<i32> {
    if s.len() > 0 && (s[0] == '+' || s[0] == '-') {
        let d = s.drop_first();
        let v = if s[0] == '-' {
            -digits_value(d)
        } else {
            digits_value(d)
        };
        if d.len() > 0 && all_digits(d) && i32::MIN <= v <= i32::MAX {
            Some(v as i32)
        } else {
            None
        }
    } else if s.len() > 0 && all_digits(s) && digits_value(s) <= i32::MAX {
        Some(digits_value(s) as i32)
    } else {
        None
    }
}

/// A prefix of a run of digits writes a number no larger than the whole run.
proof fn lemma_digits_prefix(t: Seq<char>, k: int)
    requires
        all_digits(t),
        0 <= k <= t.len(),
    ensures
        0 <= digits_value(t.take(k)) <= digits_value(t),
    decreases t.len(),
{
    if t.len() > 0 {
        let u = t.drop_last();
        assert(is_digit(t[t.len() - 1]));
        if k < t.len() {
            assert(u.take(k) =~= t.take(k));
            lemma_digits_prefix(u, k);
        } else {
            assert(t.take(k) =~= t);
            lemma_digits_prefix(u, 0);
        }
    }
}

fn all_digits_from(s: &Vec<char>, from: usize) -> (r: bool)
    requires
        from <= s.len(),
    ensures
        r == all_digits(s@.skip(from as int)),
{
    let mut i: usize = from;
    while i < s.len()
        invariant
            from <= i <= s.len(),
            forall|t: int| from <= t < i ==> is_digit(#[trigger] s@[t]),
        decreases s.len() - i,
    {
        let u = s[i] as u32;
        if !(0x30 <= u && u <= 0x39) {
            assert(!is_digit(s@.skip(from as int)[i - from]));
            return false;
        }
        i = i + 1;
    }
    true
}

/// The value of the digits `s[from..]`, where it is at most `2^31`.
fn digits_value_from(s: &Vec<char>, from: usize) -> (r: Option<u64>)
    requires
        from <= s.len(),
        all_digits(s@.skip(from as int)),
    ensures
        match r {
            Some(v) => v == digits_value(s@.skip(from as int)) && v <= 0x8000_0000,
            None => digits_value(s@.skip(from as int)) > 0x8000_0000,
        },
{
    let ghost t = s@.skip(from as int);
    let mut acc: u64 = 0;
    let mut i: usize = from;
    assert(t.take(0) =~= Seq::<char>::empty());
    while i < s.len()
        invariant
            from <= i <= s.len(),
            t == s@.skip(from as int),
            all_digits(t),
            acc == digits_value(t.take(i - from)),
            acc <= 0x8000_0000,
        decreases s.len() - i,
    {
        assert(is_digit(t[i - from]));
        assert(t.take(i - from + 1).drop_last() =~= t.take(i - from));
        acc = acc * 10 + (s[i] as u32 - 0x30) as u64;
        i = i + 1;
        if acc > 0x8000_0000 {
            proof {
                lemma_digits_prefix(t, i - from);
            }
            return None;
        }
    }
    assert(t.take(i - from) =~= t);
    Some(acc)
}

/// `s` read as an `i32` the way `str::parse::<i32>` reads it.
pub fn parse_i32_exec(s: &Vec<char>) -> (r: Option<i32>)
    ensures
        r == parse_i32(s@),
{
    let n = s.len();
    if n == 0 {
        return None;
    }
    if s[0] == '+' || s[0] == '-' {
        assert(s@.skip(1) =~= s@.drop_first());
        if n == 1 || !all_digits_from(s, 1) {
            return None;
        }
        match digits_value_from(s, 1) {
            None => None,
            Some(v) => {
                if s[0] == '-' {
                    Some((0 - v as i64) as i32)
                } else if v <= 0x7fff_ffff {
                    Some(v as i32)
                } else {
                    None
                }
            },
        }
    } else {
        assert(s@.skip(0) =~= s@);
        if !all_digits_from(s, 0) {
            return None;
        }
        match digits_value_from(s, 0) {
            None => None,
            Some(v) => {
                if v <= 0x7fff_ffff {
                    Some(v as i32)
                } else {
                    None
                }
            },
        }
    }
}

/// The lines of `s`: the pieces between `'\n'` characters, the last one
/// included even where it is empty. A `'\r'` before a `'\n'` stays in its line.
pub open spec fn split_lines(s: Seq<char>) -> Seq<Seq<char>>
    decreases s.len(),
{
    if s.len() == 0 {
        seq![Seq::empty()]
    } else {
        let prev = split_lines(s.drop_last());
        if s.last() == '\n' {
            prev.push(Seq::empty())
        } else {
            prev.update(prev.len() - 1, prev.last().push(s.last()))
        }
    }
}

/// The first of `lines` in which `m` stands.
pub open spec fn first_with(lines: Seq<Seq<char>>, m: Seq<char>) -> Option<Seq<char>>
    decreases lines.len(),
{
    if lines.len() == 0 {
        None
    } else if contains(lines[0], m) {
        Some(lines[0])
    } else {
        first_with(lines.drop_first(), m)
    }
}

/// The first line of `s` in which `m` stands.
pub open spec fn first_line_with(s: Seq<char>, m: Seq<char>) -> Option<Seq<char>> {
    first_with(split_lines(s), m)
}

proof fn lemma_first_with_at(lines: Seq<Seq<char>>, m: Seq<char>, k: int)
    requires
        0 <= k <= lines.len(),
        forall|j: int| 0 <= j < k ==> !contains(#[trigger] lines[j], m),
    ensures
        first_with(lines, m) == first_with(lines.skip(k), m),
    decreases k,
{
    if k > 0 {
        assert(lines.drop_first().skip(k - 1) =~= lines.skip(k));
        assert forall|j: int| 0 <= j < k - 1 implies !contains(#[trigger] lines.drop_first()[j], m) by {
            assert(lines.drop_first()[j] == lines[j + 1]);
        }
        lemma_first_with_at(lines.drop_first(), m, k - 1);
    } else {
        assert(lines.skip(0) =~= lines);
    }
}

/// The lines of `s`, as `split_lines` gives them.
pub fn split_lines_exec(s: &Vec<char>) -> (r: Vec<Vec<char>>)
    ensures
        r.len() == split_lines(s@).len(),
        forall|i: int| 0 <= i < r.len() ==> #[trigger] r@[i]@ == split_lines(s@)[i],
{
    let mut done: Vec<Vec<char>> = Vec::new();
    let mut cur: Vec<char> = Vec::new();
    let mut i: usize = 0;
    assert(s@.take(0) =~= Seq::<char>::empty());
    while i < s.len()
        invariant
            i <= s.len(),
            split_lines(s@.take(i as int)).len() == done.len() + 1,
            forall|j: int| 0 <= j < done.len() ==> #[trigger] done@[j]@ == split_lines(s@.take(i as int))[j],
            split_lines(s@.take(i as int)).last() == cur@,
        decreases s.len() - i,
    {
        assert(s@.take(i + 1).drop_last() =~= s@.take(i as int));
        let c = s[i];
        if c == '\n' {
            done.push(cur);
            cur = Vec::new();
        } else {
            cur.push(c);
        }
        i = i + 1;
    }
    assert(s@.take(i as int) =~= s@);
    done.push(cur);
    done
}

/// The first line of `s` in which `m` stands.
pub fn first_line_with_exec(s: &Vec<char>, m: &Vec<char>) -> (r: Option<Vec<char>>)
    ensures
        match r {
            Some(l) => first_line_with(s@, m@) == Some(l@),
            None => first_line_with(s@, m@) is None,
        },
{
    let lines = split_lines_exec(s);
    let ghost all = split_lines(s@);
    let mut k: usize = 0;
    while k < lines.len()
        invariant
            k <= lines.len() == all.len(),
            all == split_lines(s@),
            forall|i: int| 0 <= i < lines.len() ==> #[trigger] lines@[i]@ == all[i],
            forall|j: int| 0 <= j < k ==> !contains(#[trigger] all[j], m@),
        decreases lines.len() - k,
    {
        assert(lines@[k as int]@ == all[k as int]);
        if contains_exec(&lines[k], m) {
            proof {
                lemma_first_with_at(all, m@, k as int);
            }
            return Some(copy_range(&lines[k], 0, lines[k].len()));
        }
        k = k + 1;
    }
    proof {
        lemma_first_with_at(all, m@, k as int);
    }
    None
}

} // verus!
