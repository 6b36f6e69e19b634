//! Removal of ANSI escape sequences from terminal output: control sequences
//! (`ESC [` ... final letter) and operating-system commands (`ESC ]` ...
//! terminated by BEL or by `ESC \`).
use vstd::prelude::*;
use crate::text::{chars_of, string_of, is_ascii_letter, is_ascii_letter_char};

verus! {

/// The escape character that opens every sequence.
pub open spec fn is_escape(c: char) -> bool {
    c == '\u{1b}'
}

/// What follows the body of a control sequence whose `ESC [` has already
/// been consumed: everything after its first ASCII letter (or nothing when
/// no letter comes).
pub open spec fn after_csi(r: Seq<char>) -> Seq<char>
    decreases r.len(),
{
    if r.len() == 0 {
        r
    } else if is_ascii_letter(r[0]) {
        r.drop_first()
    } else {
        after_csi(r.drop_first())
    }
}

/// What follows the body of an operating-system command whose `ESC ]` has
/// already been consumed: everything after the first BEL, or after the first
/// backslash that directly follows an escape character. `escaped` says
/// whether the character just before `r` was such an escape.
pub open spec fn after_osc(r: Seq<char>, escaped: bool) -> Seq<char>
    decreases r.len(),
{
    if r.len() == 0 {
        r
    } else if r[0] == '\u{7}' {
        r.drop_first()
    } else if is_escape(r[0]) {
        after_osc(r.drop_first(), true)
    } else if escaped && r[0] == '\\' {
        r.drop_first()
    } else {
        after_osc(r.drop_first(), false)
    }
}

pub proof fn lemma_after_csi_len(r: Seq<char>)
    ensures
        after_csi(r).len() <= r.len(),
    decreases r.len(),
{
    if r.len() > 0 && !is_ascii_letter(r[0]) {
        lemma_after_csi_len(r.drop_first());
    }
}

pub proof fn lemma_after_osc_len(r: Seq<char>, escaped: bool)
    ensures
        after_osc(r, escaped).len() <= r.len(),
    decreases r.len(),
{
    if r.len() > 0 && r[0] != '\u{7}' {
        if is_escape(r[0]) {
            lemma_after_osc_len(r.drop_first(), true);
        } else if !(escaped && r[0] == '\\') {
            lemma_after_osc_len(r.drop_first(), false);
        }
    }
}

/// `s` with its escape sequences removed. An escape character that starts
/// neither kind of sequence (including one at the very end) is kept.
pub open spec fn stripped(s: Seq<char>) -> Seq<char>
    decreases s.len(),
{
    if s.len() == 0 {
        s
    } else if is_escape(s[0]) && s.len() > 1 && s[1] == '[' {
        proof {
            lemma_after_csi_len(s.skip(2));
        }
        stripped(after_csi(s.skip(2)))
    } else if is_escape(s[0]) && s.len() > 1 && s[1] == ']' {
        proof {
            lemma_after_osc_len(s.skip(2), false);
        }
        stripped(after_osc(s.skip(2), false))
    } else {
        seq![s[0]] + stripped(s.drop_first())
    }
}

/// The index just past the end of a control sequence whose body starts at
/// `from`.
fn csi_end(v: &Vec<char>, from: usize) -> (k: usize)
    requires
        from <= v@.len(),
    ensures
        from <= k <= v@.len(),
        v@.skip(k as int) == after_csi(v@.skip(from as int)),
{
    let n = v.len();
    let mut j = from;
    while j < n
        invariant
            n == v@.len(),
            from <= j <= n,
            after_csi(v@.skip(from as int)) == after_csi(v@.skip(j as int)),
        decreases n - j,
    {
        assert(v@.skip(j as int).drop_first() == v@.skip(j + 1));
        if is_ascii_letter_char(v[j]) {
            return j + 1;
        }
        j = j + 1;
    }
    assert(v@.skip(n as int).len() == 0);
    j
}

/// The index just past the end of an operating-system command whose body
/// starts at `from`.
fn osc_end(v: &Vec<char>, from: usize) -> (k: usize)
    requires
        from <= v@.len(),
    ensures
        from <= k <= v@.len(),
        v@.skip(k as int) == after_osc(v@.skip(from as int), false),
{
    let n = v.len();
    let mut j = from;
    let mut escaped = false;
    while j < n
        invariant
            n == v@.len(),
            from <= j <= n,
            after_osc(v@.skip(from as int), false) == after_osc(v@.skip(j as int), escaped),
        decreases n - j,
    {
        assert(v@.skip(j as int).drop_first() == v@.skip(j + 1));
        let c = v[j];
        if c == '\u{7}' {
            return j + 1;
        }
        if c == '\u{1b}' {
            escaped = true;
        } else if escaped && c == '\\' {
            return j + 1;
        } else {
            escaped = false;
        }
        j = j + 1;
    }
    assert(v@.skip(n as int).len() == 0);
    j
}

/// The characters of `v` with escape sequences removed.
pub fn strip_chars(v: &Vec<char>) -> (out: Vec<char>)
    ensures
        out@ == stripped(v@),
{
    let n = v.len();
    let mut out: Vec<char> = Vec::new();
    let mut i: usize = 0;
    assert(v@.skip(0) == v@);
    while i < n
        invariant
            n == v@.len(),
            i <= n,
            stripped(v@) == out@ + stripped(v@.skip(i as int)),
        decreases n - i,
    {
        let ghost rest = v@.skip(i as int);
        let c = v[i];
        if c == '\u{1b}' && i + 1 < n && v[i + 1] == '[' {
            assert(rest.skip(2) == v@.skip(i + 2));
            let k = csi_end(v, i + 2);
            i = k;
        } else if c == '\u{1b}' && i + 1 < n && v[i + 1] == ']' {
            assert(rest.skip(2) == v@.skip(i + 2));
            let k = osc_end(v, i + 2);
            i = k;
        } else {
            assert(rest.drop_first() == v@.skip(i + 1));
            assert(stripped(rest) == seq![c] + stripped(v@.skip(i + 1)));
            out.push(c);
            assert(out@ + stripped(v@.skip(i + 1)) == (out@.drop_last() + seq![c]) + stripped(
                v@.skip(i + 1),
            ));
            i = i + 1;
        }
    }
    assert(v@.skip(n as int).len() == 0);
    assert(out@ + stripped(v@.skip(n as int)) == out@);
    out
}

/// Terminal output with its ANSI escape sequences removed, so that header
/// matching and the log panel both see plain text.
pub fn strip_ansi(s: &str) -> (r: String)
    ensures
        r@ == stripped(s@),
{
    let v = chars_of(s);
    let out = strip_chars(&v);
    string_of(&out)
}

/// `s` holds no escape character.
pub open spec fn plain(s: Seq<char>) -> bool {
    forall|i: int| 0 <= i < s.len() ==> !is_escape(#[trigger] s[i])
}

/// Text without escape characters passes through unchanged.
pub proof fn lemma_plain_unchanged(s: Seq<char>)
    requires
        plain(s),
    ensures
        stripped(s) == s,
    decreases s.len(),
{
    if s.len() > 0 {
        assert(!is_escape(s[0]));
        assert(plain(s.drop_first()));
        lemma_plain_unchanged(s.drop_first());
        assert(seq![s[0]] + s.drop_first() == s);
    }
}

/// A plain prefix is kept as it is, and the rest is stripped on its own.
pub proof fn lemma_plain_prefix(p: Seq<char>, s: Seq<char>)
    requires
        plain(p),
    ensures
        stripped(p + s) == p + stripped(s),
    decreases p.len(),
{
    if p.len() > 0 {
        assert(!is_escape(p[0]));
        assert(plain(p.drop_first()));
        assert((p + s).drop_first() == p.drop_first() + s);
        lemma_plain_prefix(p.drop_first(), s);
        assert(seq![p[0]] + (p.drop_first() + stripped(s)) == p + stripped(s));
    } else {
        assert(p + s == s);
        assert(p + stripped(s) == stripped(s));
    }
}

/// Stripping never lengthens the text.
pub proof fn lemma_stripped_len(s: Seq<char>)
    ensures
        stripped(s).len() <= s.len(),
    decreases s.len(),
{
    if s.len() > 0 {
        if is_escape(s[0]) && s.len() > 1 && s[1] == '[' {
            lemma_after_csi_len(s.skip(2));
            lemma_stripped_len(after_csi(s.skip(2)));
        } else if is_escape(s[0]) && s.len() > 1 && s[1] == ']' {
            lemma_after_osc_len(s.skip(2), false);
            lemma_stripped_len(after_osc(s.skip(2), false));
        } else {
            lemma_stripped_len(s.drop_first());
        }
    }
}

/// `a` can be obtained from `b` by deleting characters.
pub open spec fn is_subsequence(a: Seq<char>, b: Seq<char>) -> bool
    decreases b.len(),
{
    if a.len() == 0 {
        true
    } else if b.len() == 0 {
        false
    } else {
        (a[0] == b[0] && is_subsequence(a.drop_first(), b.drop_first())) || is_subsequence(
            a,
            b.drop_first(),
        )
    }
}

proof fn lemma_subsequence_of_suffix(a: Seq<char>, b: Seq<char>, k: int)
    requires
        0 <= k <= b.len(),
        is_subsequence(a, b.skip(k)),
    ensures
        is_subsequence(a, b),
    decreases k,
{
    if k > 0 {
        assert(b.skip(k - 1).drop_first() == b.skip(k));
        assert(is_subsequence(a, b.skip(k - 1)));
        lemma_subsequence_of_suffix(a, b, k - 1);
    } else {
        assert(b.skip(0) == b);
    }
}

proof fn lemma_after_csi_suffix(r: Seq<char>) -> (k: int)
    ensures
        0 <= k <= r.len(),
        after_csi(r) == r.skip(k),
    decreases r.len(),
{
    if r.len() == 0 {
        assert(r.skip(0) == r);
        0
    } else if is_ascii_letter(r[0]) {
        1
    } else {
        let j = lemma_after_csi_suffix(r.drop_first());
        assert(r.drop_first().skip(j) == r.skip(j + 1));
        j + 1
    }
}

proof fn lemma_after_osc_suffix(r: Seq<char>, escaped: bool) -> (k: int)
    ensures
        0 <= k <= r.len(),
        after_osc(r, escaped) == r.skip(k),
    decreases r.len(),
{
    if r.len() == 0 {
        assert(r.skip(0) == r);
        0
    } else if r[0] == '\u{7}' {
        1
    } else if is_escape(r[0]) {
        let j = lemma_after_osc_suffix(r.drop_first(), true);
        assert(r.drop_first().skip(j) == r.skip(j + 1));
        j + 1
    } else if escaped && r[0] == '\\' {
        1
    } else {
        let j = lemma_after_osc_suffix(r.drop_first(), false);
        assert(r.drop_first().skip(j) == r.skip(j + 1));
        j + 1
    }
}

/// Stripping only deletes: the result is a subsequence of the input.
pub proof fn lemma_stripped_subsequence(s: Seq<char>)
    ensures
        is_subsequence(stripped(s), s),
    decreases s.len(),
{
    if s.len() == 0 {
    } else if is_escape(s[0]) && s.len() > 1 && s[1] == '[' {
        let k = lemma_after_csi_suffix(s.skip(2));
        assert(s.skip(2).skip(k) == s.skip(k + 2));
        lemma_stripped_subsequence(after_csi(s.skip(2)));
        lemma_subsequence_of_suffix(stripped(s), s, k + 2);
    } else if is_escape(s[0]) && s.len() > 1 && s[1] == ']' {
        let k = lemma_after_osc_suffix(s.skip(2), false);
        assert(s.skip(2).skip(k) == s.skip(k + 2));
        lemma_stripped_subsequence(after_osc(s.skip(2), false));
        lemma_subsequence_of_suffix(stripped(s), s, k + 2);
    } else {
        let rest = stripped(s.drop_first());
        lemma_stripped_subsequence(s.drop_first());
        assert(stripped(s) == seq![s[0]] + rest);
        assert((seq![s[0]] + rest).drop_first() == rest);
        assert((seq![s[0]] + rest)[0] == s[0]);
    }
}

/// A control sequence: `ESC [`, then `body`, then `last`.
pub open spec fn control_sequence(body: Seq<char>, last: char) -> Seq<char> {
    seq!['\u{1b}', '['] + body + seq![last]
}

proof fn lemma_after_csi_skips_body(body: Seq<char>, last: char, t: Seq<char>)
    requires
        forall|i: int| 0 <= i < body.len() ==> !is_ascii_letter(#[trigger] body[i]),
        is_ascii_letter(last),
    ensures
        after_csi(body + seq![last] + t) == t,
    decreases body.len(),
{
    let r = body + seq![last] + t;
    if body.len() == 0 {
        assert(r[0] == last);
        assert(r.drop_first() == t);
    } else {
        assert(r[0] == body[0]);
        assert(r.drop_first() == body.drop_first() + seq![last] + t);
        assert forall|i: int| 0 <= i < body.drop_first().len() implies !is_ascii_letter(
            #[trigger] body.drop_first()[i],
        ) by {
            assert(body.drop_first()[i] == body[i + 1]);
        }
        lemma_after_csi_skips_body(body.drop_first(), last, t);
    }
}

/// A control sequence ends at its first ASCII letter, upper or lower case:
/// `ESC [`, a body without ASCII letters, and one letter (`A`..`Z` or
/// `a`..`z`) are removed as a whole, and nothing after them is touched.
pub proof fn lemma_control_sequence_removed(body: Seq<char>, last: char, t: Seq<char>)
    requires
        forall|i: int|
            0 <= i < body.len() ==> !((0x41 <= (#[trigger] body[i]) as u32 && (body[i] as u32)
                <= 0x5a) || (0x61 <= (body[i] as u32) && (body[i] as u32) <= 0x7a)),
        (0x41 <= (last as u32) && (last as u32) <= 0x5a) || (0x61 <= (last as u32) && (last as u32)
            <= 0x7a),
    ensures
        stripped(control_sequence(body, last) + t) == stripped(t),
{
    let s = control_sequence(body, last) + t;
    assert forall|i: int| 0 <= i < body.len() implies !is_ascii_letter(#[trigger] body[i]) by {
        assert(!((0x41 <= (body[i] as u32) && (body[i] as u32) <= 0x5a) || (0x61 <= (
        body[i] as u32) && (body[i] as u32) <= 0x7a)));
    }
    assert(s[0] == '\u{1b}');
    assert(s[1] == '[');
    assert(s.skip(2) == body + seq![last] + t);
    lemma_after_csi_skips_body(body, last, t);
}

/// Plain text wrapped in control sequences strips to that text.
pub proof fn lemma_wrapped_plain_text(
    b1: Seq<char>,
    l1: char,
    t: Seq<char>,
    b2: Seq<char>,
    l2: char,
)
    requires
        forall|i: int|
            0 <= i < b1.len() ==> !((0x41 <= (#[trigger] b1[i]) as u32 && (b1[i] as u32) <= 0x5a)
                || (0x61 <= (b1[i] as u32) && (b1[i] as u32) <= 0x7a)),
        forall|i: int|
            0 <= i < b2.len() ==> !((0x41 <= (#[trigger] b2[i]) as u32 && (b2[i] as u32) <= 0x5a)
                || (0x61 <= (b2[i] as u32) && (b2[i] as u32) <= 0x7a)),
        (0x41 <= (l1 as u32) && (l1 as u32) <= 0x5a) || (0x61 <= (l1 as u32) && (l1 as u32) <= 0x7a),
        (0x41 <= (l2 as u32) && (l2 as u32) <= 0x5a) || (0x61 <= (l2 as u32) && (l2 as u32) <= 0x7a),
        plain(t),
    ensures
        stripped(control_sequence(b1, l1) + t + control_sequence(b2, l2)) == t,
{
    let c1 = control_sequence(b1, l1);
    let c2 = control_sequence(b2, l2);
    assert(c1 + t + c2 == c1 + (t + c2));
    lemma_control_sequence_removed(b1, l1, t + c2);
    lemma_plain_prefix(t, c2);
    assert(c2 == c2 + Seq::<char>::empty());
    lemma_control_sequence_removed(b2, l2, Seq::<char>::empty());
    assert(stripped(Seq::<char>::empty()) == Seq::<char>::empty());
    assert(t + Seq::<char>::empty() == t);
}

proof fn lemma_after_osc_skips_body(body: Seq<char>, end: Seq<char>, t: Seq<char>)
    requires
        forall|i: int| 0 <= i < body.len() ==> #[trigger] body[i] != '\u{7}' && body[i] != '\u{1b}',
        end == seq!['\u{7}'] || end == seq!['\u{1b}', '\\'],
    ensures
        after_osc(body + end + t, false) == t,
    decreases body.len(),
{
    let r = body + end + t;
    if body.len() == 0 {
        assert(r == end + t);
        if end == seq!['\u{7}'] {
            assert(r[0] == '\u{7}');
            assert(r.drop_first() == t);
        } else {
            assert(r[0] == '\u{1b}');
            let r1 = r.drop_first();
            assert(r1[0] == '\\');
            assert(r1.drop_first() == t);
            assert(after_osc(r, false) == after_osc(r1, true));
            assert(after_osc(r1, true) == r1.drop_first());
        }
    } else {
        assert(r[0] == body[0]);
        assert(r.drop_first() == body.drop_first() + end + t);
        assert forall|i: int| 0 <= i < body.drop_first().len() implies #[trigger] body.drop_first()[i]
            != '\u{7}' && body.drop_first()[i] != '\u{1b}' by {
            assert(body.drop_first()[i] == body[i + 1]);
        }
        lemma_after_osc_skips_body(body.drop_first(), end, t);
    }
}

/// An operating-system command (`ESC ]`, a body without BEL or escape
/// characters, then BEL or `ESC \`) is removed as a whole, and nothing after
/// it is touched.
pub proof fn lemma_os_command_removed(body: Seq<char>, end: Seq<char>, t: Seq<char>)
    requires
        forall|i: int| 0 <= i < body.len() ==> #[trigger] body[i] != '\u{7}' && body[i] != '\u{1b}',
        end == seq!['\u{7}'] || end == seq!['\u{1b}', '\\'],
    ensures
        stripped(seq!['\u{1b}', ']'] + body + end + t) == stripped(t),
{
    let s = seq!['\u{1b}', ']'] + body + end + t;
    assert(s[0] == '\u{1b}');
    assert(s[1] == ']');
    assert(s.skip(2) == body + end + t);
    lemma_after_osc_skips_body(body, end, t);
}

} // verus!
