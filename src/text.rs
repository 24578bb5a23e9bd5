//! Character-level helpers shared by the parser and the serialiser.
use vstd::prelude::*;
use vstd::std_specs::iter::IteratorSpec;

verus! {

broadcast use vstd::string::group_string_axioms;

/// The decimal digit character for `d < 10`.
pub open spec fn digit_char(d: nat) -> char {
    if d == 0 { '0' }
    else if d == 1 { '1' }
    else if d == 2 { '2' }
    else if d == 3 { '3' }
    else if d == 4 { '4' }
    else if d == 5 { '5' }
    else if d == 6 { '6' }
    else if d == 7 { '7' }
    else if d == 8 { '8' }
    else { '9' }
}

/// The decimal representation of `n`, without leading zeros.
pub open spec fn decimal_text(n: nat) -> Seq<char>
    decreases n,
{
    if n < 10 {
        seq![digit_char(n)]
    } else {
        decimal_text(n / 10).push(digit_char(n % 10))
    }
}

fn digit_str(d: usize) -> (r: &'static str)
    requires
        d < 10,
    ensures
        r@ == seq![digit_char(d as nat)],
{
    proof {
        reveal_strlit("0");
        reveal_strlit("1");
        reveal_strlit("2");
        reveal_strlit("3");
        reveal_strlit("4");
        reveal_strlit("5");
        reveal_strlit("6");
        reveal_strlit("7");
        reveal_strlit("8");
        reveal_strlit("9");
    }
    let r = if d == 0 { "0" }
    else if d == 1 { "1" }
    else if d == 2 { "2" }
    else if d == 3 { "3" }
    else if d == 4 { "4" }
    else if d == 5 { "5" }
    else if d == 6 { "6" }
    else if d == 7 { "7" }
    else if d == 8 { "8" }
    else { "9" };
    assert(r@ =~= seq![digit_char(d as nat)]);
    r
}

/// Renders `n` in decimal.
pub fn decimal(n: usize) -> (r: String)
    ensures
        r@ == decimal_text(n as nat),
    decreases n,
{
    if n < 10 {
        String::from_str(digit_str(n))
    } else {
        let mut r = decimal(n / 10);
        r.append(digit_str(n % 10));
        r
    }
}

/// The characters of `s`, in order.
pub fn chars_of(s: &str) -> (r: Vec<char>)
    ensures
        r@ == s@,
{
    let mut it = s.chars();
    let mut r: Vec<char> = Vec::new();
    loop
        invariant
            it.remaining() == s@.skip(r@.len() as int),
            r@ == s@.take(r@.len() as int),
            r@.len() <= s@.len(),
        ensures
            r@ == s@,
        decreases s@.len() - r@.len(),
    {
        match it.next() {
            Some(c) => {
                r.push(c);
                assert(r@ =~= s@.take(r@.len() as int));
            },
            None => {
                assert(r@ =~= s@);
                break;
            },
        }
    }
    r
}

/// The first index in `from..end` that holds `c`, or `end`.
pub open spec fn find_char(s: Seq<char>, c: char, from: int, end: int) -> int
    decreases end - from,
{
    if from >= end {
        end
    } else if s[from] == c {
        from
    } else {
        find_char(s, c, from + 1, end)
    }
}

/// Whether a line break (CR LF) starts at `k`.
pub open spec fn is_crlf_at(s: Seq<char>, k: int) -> bool {
    0 <= k && k + 1 < s.len() && s[k] == '\r' && s[k + 1] == '\n'
}

/// The first index from `from` on where a line break starts, or the length.
pub open spec fn find_crlf(s: Seq<char>, from: int) -> int
    decreases s.len() - from,
{
    if from >= s.len() {
        s.len() as int
    } else if is_crlf_at(s, from) {
        from
    } else {
        find_crlf(s, from + 1)
    }
}

/// The last index below `end` that holds `c`, or -1.
pub open spec fn rfind_char(s: Seq<char>, c: char, end: int) -> int
    decreases end,
{
    if end <= 0 {
        -1
    } else if s[end - 1] == c {
        end - 1
    } else {
        rfind_char(s, c, end - 1)
    }
}

/// Skipping a stretch without `c` does not change where `c` is found.
pub proof fn lemma_find_char_skip(s: Seq<char>, c: char, from: int, mid: int, end: int)
    requires
        0 <= from <= mid <= end <= s.len(),
        forall|k: int| from <= k < mid ==> s[k] != c,
    ensures
        find_char(s, c, from, end) == find_char(s, c, mid, end),
    decreases mid - from,
{
    if from < mid {
        lemma_find_char_skip(s, c, from + 1, mid, end);
    }
}

/// `find_char` stays in range, lands on `c` when below `end`, and passes
/// no `c` on the way.
pub proof fn lemma_find_char_bounds(s: Seq<char>, c: char, from: int, end: int)
    requires
        0 <= from <= end <= s.len(),
    ensures
        from <= find_char(s, c, from, end) <= end,
        find_char(s, c, from, end) < end ==> s[find_char(s, c, from, end)] == c,
        forall|k: int| from <= k < find_char(s, c, from, end) ==> s[k] != c,
    decreases end - from,
{
    if from < end {
        lemma_find_char_bounds(s, c, from + 1, end);
    }
}

/// Skipping a stretch without a line break does not change where one is found.
pub proof fn lemma_find_crlf_skip(s: Seq<char>, from: int, mid: int)
    requires
        0 <= from <= mid <= s.len(),
        forall|k: int| from <= k < mid ==> !is_crlf_at(s, k),
    ensures
        find_crlf(s, from) == find_crlf(s, mid),
    decreases mid - from,
{
    if from < mid {
        lemma_find_crlf_skip(s, from + 1, mid);
    }
}

/// `find_crlf` stays in range and lands on a line break when below the length.
pub proof fn lemma_find_crlf_bounds(s: Seq<char>, from: int)
    requires
        0 <= from <= s.len(),
    ensures
        from <= find_crlf(s, from) <= s.len(),
        find_crlf(s, from) < s.len() ==> is_crlf_at(s, find_crlf(s, from)),
    decreases s.len() - from,
{
    if from < s.len() {
        lemma_find_crlf_bounds(s, from + 1);
    }
}

/// Index of the first `c` in `s[from..end]`, or `end`.
pub fn find_char_exec(s: &Vec<char>, c: char, from: usize, end: usize) -> (r: usize)
    requires
        from <= end <= s@.len(),
    ensures
        r as int == find_char(s@, c, from as int, end as int),
{
    let mut i = from;
    while i < end
        invariant
            from <= i <= end <= s@.len(),
            forall|k: int| from <= k < i ==> s@[k] != c,
        decreases end - i,
    {
        if s[i] == c {
            proof {
                lemma_find_char_skip(s@, c, from as int, i as int, end as int);
            }
            return i;
        }
        i = i + 1;
    }
    proof {
        lemma_find_char_skip(s@, c, from as int, i as int, end as int);
    }
    i
}

/// Index of the first line break from `from` on, or the length of `s`.
pub fn find_crlf_exec(s: &Vec<char>, from: usize) -> (r: usize)
    requires
        from <= s@.len(),
    ensures
        r as int == find_crlf(s@, from as int),
{
    let mut i = from;
    while i < s.len()
        invariant
            from <= i <= s@.len(),
            forall|k: int| from <= k < i ==> !is_crlf_at(s@, k),
        decreases s@.len() - i,
    {
        if i + 1 < s.len() && s[i] == '\r' && s[i + 1] == '\n' {
            proof {
                lemma_find_crlf_skip(s@, from as int, i as int);
            }
            return i;
        }
        i = i + 1;
    }
    proof {
        lemma_find_crlf_skip(s@, from as int, i as int);
    }
    i
}

/// Index just past the last `c` below `end`, or 0 when there is none.
pub fn rfind_char_exec(s: &Vec<char>, c: char, end: usize) -> (r: usize)
    requires
        end <= s@.len(),
    ensures
        r as int == rfind_char(s@, c, end as int) + 1,
        r <= end,
{
    let mut i = end;
    while i > 0
        invariant
            i <= end <= s@.len(),
            rfind_char(s@, c, end as int) == rfind_char(s@, c, i as int),
        decreases i,
    {
        if s[i - 1] == c {
            return i;
        }
        i = i - 1;
    }
    0
}

/// The text `s[from..to]` as a string.
pub fn slice_text(s: &str, from: usize, to: usize) -> (r: String)
    requires
        from <= to <= s@.len(),
    ensures
        r@ == s@.subrange(from as int, to as int),
{
    String::from_str(s.substring_char(from, to))
}

} // verus!
