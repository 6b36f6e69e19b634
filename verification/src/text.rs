//! Character-level building blocks shared by the terminal-output handling:
//! Unicode whitespace, trimming, decimal rendering and substring search,
//! each stated over `Seq<char>` and implemented over `Vec<char>`.
use vstd::prelude::*;

verus! {

/// The Unicode `White_Space` property (the set that `char::is_whitespace`
/// and `str::trim` use).
pub open spec fn is_white_space(c: char) -> bool {
    let u = c as u32;
    ||| (0x09 <= u && u <= 0x0d)
    ||| u == 0x20
    ||| u == 0x85
    ||| u == 0xa0
    ||| u == 0x1680
    ||| (0x2000 <= u && u <= 0x200a)
    ||| u == 0x2028
    ||| u == 0x2029
    ||| u == 0x202f
    ||| u == 0x205f
    ||| u == 0x3000
}

/// `s` with every trailing whitespace character removed.
pub open spec fn trim_end(s: Seq<char>) -> Seq<char>
    decreases s.len(),
{
    if s.len() > 0 && is_white_space(s.last()) {
        trim_end(s.drop_last())
    } else {
        s
    }
}

/// `s` with every leading whitespace character removed.
pub open spec fn trim_start(s: Seq<char>) -> Seq<char>
    decreases s.len(),
{
    if s.len() > 0 && is_white_space(s[0]) {
        trim_start(s.drop_first())
    } else {
        s
    }
}

/// `s` with whitespace removed at both ends.
pub open spec fn trim(s: Seq<char>) -> Seq<char> {
    trim_start(trim_end(s))
}

/// True for a carriage return or a line feed.
pub open spec fn is_line_break(c: char) -> bool {
    c == '\r' || c == '\n'
}

/// `s` with every trailing carriage return and line feed removed.
pub open spec fn trim_line_breaks(s: Seq<char>) -> Seq<char>
    decreases s.len(),
{
    if s.len() > 0 && is_line_break(s.last()) {
        trim_line_breaks(s.drop_last())
    } else {
        s
    }
}

/// The ASCII digit for `d` (which is below ten).
pub open spec fn digit_char(d: nat) -> char {
    (48 + d) as char
}

/// The decimal rendering of `n`, most significant digit first, without
/// leading zeros.
pub open spec fn decimal(n: nat) -> Seq<char>
    decreases n,
{
    if n < 10 {
        seq![digit_char(n)]
    } else {
        decimal(n / 10).push(digit_char(n % 10))
    }
}

/// `pat` occurs in `s` starting at `i`.
pub open spec fn occurs_at(s: Seq<char>, pat: Seq<char>, i: int) -> bool {
    0 <= i && i + pat.len() <= s.len() && s.subrange(i, i + pat.len()) == pat
}

/// `pat` occurs somewhere in `s`.
pub open spec fn contains_text(s: Seq<char>, pat: Seq<char>) -> bool {
    exists|i: int| occurs_at(s, pat, i)
}

/// True for an ASCII letter.
pub open spec fn is_ascii_letter(c: char) -> bool {
    let u = c as u32;
    (0x41 <= u && u <= 0x5a) || (0x61 <= u && u <= 0x7a)
}

/// Whether `c` has the Unicode `White_Space` property.
pub fn is_white_space_char(c: char) -> (r: bool)
    ensures
        r == is_white_space(c),
{
    let u = c as u32;
    (0x09 <= u && u <= 0x0d) || u == 0x20 || u == 0x85 || u == 0xa0 || u == 0x1680 || (0x2000
        <= u && u <= 0x200a) || u == 0x2028 || u == 0x2029 || u == 0x202f || u == 0x205f || u
        == 0x3000
}

/// Whether `c` is an ASCII letter.
pub fn is_ascii_letter_char(c: char) -> (r: bool)
    ensures
        r == is_ascii_letter(c),
{
    let u = c as u32;
    (0x41 <= u && u <= 0x5a) || (0x61 <= u && u <= 0x7a)
}

/// The characters of `s`, in order.
pub fn chars_of(s: &str) -> (v: Vec<char>)
    ensures
        v@ == s@,
{
    let mut v: Vec<char> = Vec::new();
    for c in it: s.chars()
        invariant
            v@ == it.seq().take(it.index() as int),
    {
        v.push(c);
    }
    v
}

/// Appends one character to a `String` (`String::push`).
#[verifier::external_body]
fn push_char(s: &mut String, c: char)
    ensures
        final(s)@ == old(s)@.push(c),
{
    s.push(c);
}

/// A `String` holding exactly the characters of `v`.
pub fn string_of(v: &Vec<char>) -> (s: String)
    ensures
        s@ == v@,
{
    let mut s = String::new();
    let n = v.len();
    for i in 0..n
        invariant
            n == v@.len(),
            s@ == v@.take(i as int),
    {
        push_char(&mut s, v[i]);
        assert(v@.take(i + 1) == v@.take(i as int).push(v@[i as int]));
    }
    assert(v@.take(n as int) == v@);
    s
}

proof fn lemma_trim_end_step(s: Seq<char>, e: int)
    requires
        0 < e <= s.len(),
        is_white_space(s[e - 1]),
    ensures
        trim_end(s.take(e)) == trim_end(s.take(e - 1)),
{
    assert(s.take(e).drop_last() == s.take(e - 1));
}

/// The length of `trim_end(v)`: the index just past the last
/// non-whitespace character.
pub fn trim_end_len(v: &Vec<char>) -> (e: usize)
    ensures
        e <= v@.len(),
        trim_end(v@) == v@.take(e as int),
{
    let mut e = v.len();
    assert(v@.take(e as int) == v@);
    while e > 0 && is_white_space_char(v[e - 1])
        invariant
            e <= v@.len(),
            trim_end(v@) == trim_end(v@.take(e as int)),
        decreases e,
    {
        proof {
            lemma_trim_end_step(v@, e as int);
        }
        e = e - 1;
    }
    e
}

/// The index of the first non-whitespace character of `v.take(end)`
/// (or `end` when there is none).
pub fn trim_start_index(v: &Vec<char>, end: usize) -> (b: usize)
    requires
        end <= v@.len(),
    ensures
        b <= end,
        trim_start(v@.take(end as int)) == v@.subrange(b as int, end as int),
{
    let mut b: usize = 0;
    assert(v@.subrange(0, end as int) == v@.take(end as int));
    while b < end && is_white_space_char(v[b])
        invariant
            b <= end <= v@.len(),
            trim_start(v@.take(end as int)) == trim_start(v@.subrange(b as int, end as int)),
        decreases end - b,
    {
        assert(v@.subrange(b as int, end as int).drop_first() == v@.subrange(
            b + 1,
            end as int,
        ));
        b = b + 1;
    }
    b
}

/// The length of `trim_line_breaks(v)`.
pub fn trim_line_breaks_len(v: &Vec<char>, len: usize) -> (e: usize)
    requires
        len <= v@.len(),
    ensures
        e <= len,
        trim_line_breaks(v@.take(len as int)) == v@.take(e as int),
{
    let mut e = len;
    while e > 0 && (v[e - 1] == '\r' || v[e - 1] == '\n')
        invariant
            e <= len <= v@.len(),
            trim_line_breaks(v@.take(len as int)) == trim_line_breaks(v@.take(e as int)),
        decreases e,
    {
        assert(v@.take(e as int).drop_last() == v@.take(e - 1));
        e = e - 1;
    }
    e
}

/// Whether `v[b..e]` holds exactly the characters of `pat`.
pub fn slice_equals(v: &Vec<char>, b: usize, e: usize, pat: &Vec<char>) -> (r: bool)
    requires
        b <= e <= v@.len(),
    ensures
        r == (v@.subrange(b as int, e as int) == pat@),
{
    if e - b != pat.len() {
        return false;
    }
    let n = pat.len();
    for k in 0..n
        invariant
            n == pat@.len(),
            e - b == n,
            b <= e <= v@.len(),
            forall|j: int| 0 <= j < k ==> v@[b + j] == pat@[j],
    {
        if v[b + k] != pat[k] {
            assert(v@.subrange(b as int, e as int)[k as int] != pat@[k as int]);
            return false;
        }
    }
    assert(v@.subrange(b as int, e as int) == pat@);
    true
}

/// The decimal digits of `n`.
pub fn decimal_chars(n: u64) -> (v: Vec<char>)
    ensures
        v@ == decimal(n as nat),
    decreases n,
{
    let d = (n % 10) as u8;
    let c = (48u8 + d) as char;
    if n < 10 {
        let mut v: Vec<char> = Vec::new();
        v.push(c);
        v
    } else {
        let mut v = decimal_chars(n / 10);
        v.push(c);
        v
    }
}

/// Whether `pat` occurs somewhere in `v`.
pub fn contains_chars(v: &Vec<char>, pat: &Vec<char>) -> (r: bool)
    ensures
        r == contains_text(v@, pat@),
{
    let n = v.len();
    let m = pat.len();
    if m > n {
        assert forall|i: int| !occurs_at(v@, pat@, i) by {}
        return false;
    }
    if m == 0 {
        assert(v@.subrange(0, 0) == pat@);
        assert(occurs_at(v@, pat@, 0));
        return true;
    }
    let last = n - m;
    let mut i: usize = 0;
    while i <= last
        invariant
            n == v@.len(),
            m == pat@.len(),
            0 < m <= n,
            last == n - m,
            forall|j: int| 0 <= j < i ==> !occurs_at(v@, pat@, j),
        decreases last + 1 - i,
    {
        if slice_equals(v, i, i + m, pat) {
            assert(occurs_at(v@, pat@, i as int));
            return true;
        }
        i = i + 1;
    }
    assert forall|j: int| !occurs_at(v@, pat@, j) by {
        if 0 <= j && j < i {
        }
    }
    false
}

/// The number that a string of decimal digits denotes.
pub open spec fn digits_value(s: Seq<char>) -> int
    decreases s.len(),
{
    if s.len() == 0 {
        0
    } else {
        digits_value(s.drop_last()) * 10 + ((s.last() as u32) - 48)
    }
}

/// The decimal rendering is the number's digits: at least one ASCII digit,
/// no leading zero (but for zero itself), and read back it gives the
/// number.
pub proof fn lemma_decimal_digits(n: nat)
    ensures
        decimal(n).len() >= 1,
        forall|i: int|
            0 <= i < decimal(n).len() ==> 48 <= (#[trigger] decimal(n)[i]) as u32 && (decimal(
                n,
            )[i] as u32) <= 57,
        digits_value(decimal(n)) == n,
        n > 0 ==> decimal(n)[0] != '0',
    decreases n,
{
    let d = (n % 10) as nat;
    assert((digit_char(d) as u32) == 48 + d);
    if n < 10 {
        assert(decimal(n) == seq![digit_char(n)]);
        assert(decimal(n).drop_last() == Seq::<char>::empty());
        assert(decimal(n).last() == digit_char(d));
    }
    if n >= 10 {
        lemma_decimal_digits(n / 10);
        let p = decimal(n / 10);
        assert(decimal(n) == p.push(digit_char(d)));
        assert(decimal(n).drop_last() == p);
        assert(decimal(n).last() == digit_char(d));
        assert(decimal(n)[0] == p[0]);
        assert forall|i: int| 0 <= i < decimal(n).len() implies 48 <= (#[trigger] decimal(n)[i]) as u32
            && (decimal(n)[i] as u32) <= 57 by {
            if i < p.len() {
                assert(decimal(n)[i] == p[i]);
            }
        }
        assert(n == (n / 10) * 10 + d);
        assert(digits_value(decimal(n)) == digits_value(p) * 10 + ((digit_char(d) as u32) - 48));
        assert(digits_value(p) == n / 10);
    } else {
        assert(d == n);
        assert(digits_value(decimal(n)) == digits_value(Seq::<char>::empty()) * 10 + ((digit_char(
            d,
        ) as u32) - 48));
    }
}

proof fn lemma_trim_end_shape(s: Seq<char>)
    ensures
        trim_end(s) == s.take(trim_end(s).len() as int),
        trim_end(s).len() <= s.len(),
        forall|j: int| trim_end(s).len() <= j < s.len() ==> is_white_space(#[trigger] s[j]),
        trim_end(s).len() > 0 ==> !is_white_space(s[trim_end(s).len() - 1]),
    decreases s.len(),
{
    if s.len() > 0 && is_white_space(s.last()) {
        lemma_trim_end_shape(s.drop_last());
        let k = trim_end(s).len() as int;
        assert(s.drop_last().take(k) == s.take(k));
        assert forall|j: int| k <= j < s.len() implies is_white_space(#[trigger] s[j]) by {
            if j < s.len() - 1 {
                assert(s.drop_last()[j] == s[j]);
            }
        }
    } else {
        assert(s.take(s.len() as int) == s);
    }
}

/// Trimming the end removes exactly the trailing whitespace: what remains
/// is a prefix that is empty or ends in a non-whitespace character, and
/// everything removed is whitespace.
pub proof fn lemma_trim_end_meaning(s: Seq<char>)
    ensures
        exists|k: int|
            0 <= k <= s.len() && trim_end(s) == s.take(k) && (k == 0 || !is_white_space(s[k - 1]))
                && forall|j: int| k <= j < s.len() ==> is_white_space(#[trigger] s[j]),
{
    lemma_trim_end_shape(s);
    let k = trim_end(s).len() as int;
    assert(0 <= k <= s.len() && trim_end(s) == s.take(k) && (k == 0 || !is_white_space(s[k - 1]))
        && forall|j: int| k <= j < s.len() ==> is_white_space(#[trigger] s[j]));
}

} // verus!
