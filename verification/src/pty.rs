//! What the reader of the client's terminal does with each chunk of output:
//! split it into complete lines for the log, track which menu the client is
//! in from the last header line seen, and answer each known menu once when
//! the client blocks on it.
use vstd::prelude::*;
use vstd::utf8::{
    decode_utf8, decode_utf8_split, is_char_boundary_iff_not_is_continuation_byte,
    is_char_boundary_start_end_of_seq, valid_utf8, valid_utf8_concat,
};
use crate::ansi::{
    control_sequence, lemma_plain_unchanged, lemma_wrapped_plain_text, plain, stripped, strip_chars,
};
use crate::text::{
    chars_of, contains_text, contains_chars, string_of, trim_end, trim_line_breaks,
    trim_line_breaks_len,
};
use crate::prompts::{
    answer_text, header_matches_chars, is_choice_prompt, is_choice_prompt_chars, is_header_for,
    prompt_table, rule_matches_setting, table_setting, ConnectionProfile, PromptRule, Setting,
};

verus! {

/// What `String::from_utf8_lossy` makes of a byte sequence.
pub uninterp spec fn utf8_lossy(bytes: Seq<u8>) -> Seq<char>;

/// `String::from_utf8_lossy`, owned. The contract names the result and
/// claims, as std documents, that valid UTF-8 is decoded as it is; what the
/// replacement of invalid sequences yields is left to the name.
#[verifier::external_body]
fn decode_lossy(bytes: &[u8]) -> (s: String)
    ensures
        s@ == utf8_lossy(bytes@),
        valid_utf8(bytes@) ==> s@ == decode_utf8(bytes@),
{
    String::from_utf8_lossy(bytes).into_owned()
}

/// The log line that marks the end of the setup dialogue: once the client
/// prints it, it is looking for a route and asks nothing more.
pub open spec fn progress_marker() -> Seq<char> {
    "hunting for a working"@
}

/// The index of the first line feed in `s`, or `s.len()` when there is none.
pub open spec fn first_newline(s: Seq<char>) -> nat
    decreases s.len(),
{
    if s.len() == 0 {
        0
    } else if s[0] == '\n' {
        0
    } else {
        1 + first_newline(s.drop_first())
    }
}

pub proof fn lemma_first_newline(s: Seq<char>)
    ensures
        first_newline(s) <= s.len(),
        first_newline(s) < s.len() ==> s[first_newline(s) as int] == '\n',
        forall|k: int| 0 <= k < first_newline(s) ==> s[k] != '\n',
    decreases s.len(),
{
    if s.len() > 0 && s[0] != '\n' {
        lemma_first_newline(s.drop_first());
        assert forall|k: int| 0 <= k < first_newline(s) implies s[k] != '\n' by {
            if k > 0 {
                assert(s[k] == s.drop_first()[k - 1]);
            }
        }
    }
}

/// The text a raw line (ending in its line feed) is logged as: trailing
/// carriage returns and line feeds removed, then escape sequences removed.
pub open spec fn line_text(raw: Seq<char>) -> Seq<char> {
    stripped(trim_line_breaks(raw))
}

/// The menu the client is in after `line`, checking the prompt table's
/// first `k` rules in order; a later matching header wins.
pub open spec fn section_after(line: Seq<char>, k: int, current: Option<Setting>) -> Option<
    Setting,
>
    decreases k,
{
    if k <= 0 {
        current
    } else if is_header_for(line, table_setting(k - 1)) {
        Some(table_setting(k - 1))
    } else {
        section_after(line, k - 1, current)
    }
}

/// What the lines seen so far amount to.
pub struct LineScan {
    /// The menu whose header was seen last.
    pub section: Option<Setting>,
    /// The non-empty lines to log, in order.
    pub lines: Seq<Seq<char>>,
    /// Whether a logged line holds the progress marker.
    pub saw_marker: bool,
}

/// The effect of one complete raw line.
pub open spec fn scan_line(sc: LineScan, raw: Seq<char>) -> LineScan {
    let line = line_text(raw);
    if line.len() == 0 {
        sc
    } else {
        LineScan {
            section: section_after(line, 3, sc.section),
            lines: sc.lines.push(line),
            saw_marker: sc.saw_marker || contains_text(line, progress_marker()),
        }
    }
}

/// The effect of every complete line of `text`, and the incomplete rest.
pub open spec fn scan_text(sc: LineScan, text: Seq<char>) -> (LineScan, Seq<char>)
    decreases text.len(),
{
    let i = first_newline(text) as int;
    if i < text.len() {
        scan_text(scan_line(sc, text.take(i + 1)), text.skip(i + 1))
    } else {
        (sc, text)
    }
}

/// The reader's state between chunks, as values.
pub struct ReadLoopView {
    /// The menus already answered.
    pub answered: Set<Setting>,
    /// The menu whose header was seen last.
    pub section: Option<Setting>,
    /// Output received after the last line feed.
    pub buffer: Seq<char>,
}

/// Every known menu has been answered.
pub open spec fn all_answered(a: Set<Setting>) -> bool {
    a.contains(Setting::Protocol) && a.contains(Setting::ScanMode) && a.contains(
        Setting::IpVersion,
    )
}

/// The menu to answer now, if any: the incomplete output, once stripped,
/// looks like a menu prompt, the client is in a known menu, and that menu
/// has not been answered yet.
pub open spec fn menu_to_answer(answered: Set<Setting>, section: Option<Setting>, rest: Seq<char>) -> Option<
    Setting,
> {
    if is_choice_prompt(stripped(rest)) && section is Some && !answered.contains(section->0) {
        section
    } else {
        None
    }
}

/// The scan of a chunk's text from the state `v`.
pub open spec fn chunk_scan(v: ReadLoopView, text: Seq<char>) -> (LineScan, Seq<char>) {
    scan_text(LineScan { section: v.section, lines: seq![], saw_marker: false }, v.buffer + text)
}

/// The menu answered after a chunk's text arrives in state `v`.
pub open spec fn chunk_answer(v: ReadLoopView, text: Seq<char>) -> Option<Setting> {
    let (sc, rest) = chunk_scan(v, text);
    menu_to_answer(v.answered, sc.section, rest)
}

/// The state after a chunk's text arrives in state `v`.
pub open spec fn chunk_next(v: ReadLoopView, text: Seq<char>) -> ReadLoopView {
    let (sc, rest) = chunk_scan(v, text);
    ReadLoopView {
        answered: match chunk_answer(v, text) {
            Some(s) => v.answered.insert(s),
            None => v.answered,
        },
        section: sc.section,
        buffer: rest,
    }
}

/// What the loop around the reader is to do with one chunk's result.
pub struct ChunkOutcome {
    /// Complete, cleaned, non-empty lines to forward to the log.
    pub lines: Vec<String>,
    /// Text to write to the client's terminal (an answer and its line end).
    pub reply: Option<String>,
    /// Whether to raise the session's "setup finished" flag now.
    pub prompts_done: bool,
}

/// The reader's state between chunks.
pub struct ReadLoopState {
    answered_protocol: bool,
    answered_scan_mode: bool,
    answered_ip_version: bool,
    current_section: Option<Setting>,
    line_buf: Vec<char>,
}

impl View for ReadLoopState {
    type V = ReadLoopView;

    closed spec fn view(&self) -> ReadLoopView {
        ReadLoopView {
            answered: Set::new(
                |s: Setting|
                    match s {
                        Setting::Protocol => self.answered_protocol,
                        Setting::ScanMode => self.answered_scan_mode,
                        Setting::IpVersion => self.answered_ip_version,
                    },
            ),
            section: self.current_section,
            buffer: self.line_buf@,
        }
    }
}

impl ReadLoopState {
    /// The state before any output: nothing answered, no menu, no pending
    /// text.
    pub fn new() -> (s: Self)
        ensures
            s@.answered == Set::<Setting>::empty(),
            s@.section is None,
            s@.buffer == Seq::<char>::empty(),
    {
        let s = ReadLoopState {
            answered_protocol: false,
            answered_scan_mode: false,
            answered_ip_version: false,
            current_section: None,
            line_buf: Vec::new(),
        };
        assert(s@.answered == Set::<Setting>::empty());
        s
    }

    /// Whether the menu for `s` has been answered.
    pub fn is_answered(&self, s: Setting) -> (r: bool)
        ensures
            r == self@.answered.contains(s),
    {
        match s {
            Setting::Protocol => self.answered_protocol,
            Setting::ScanMode => self.answered_scan_mode,
            Setting::IpVersion => self.answered_ip_version,
        }
    }

    fn mark_answered(&mut self, s: Setting)
        ensures
            final(self)@ == (ReadLoopView { answered: old(self)@.answered.insert(s), ..old(self)@ }),
    {
        match s {
            Setting::Protocol => self.answered_protocol = true,
            Setting::ScanMode => self.answered_scan_mode = true,
            Setting::IpVersion => self.answered_ip_version = true,
        }
        assert(self@.answered == old(self)@.answered.insert(s));
    }
}

/// `v[b..e]` as a vector of its own.
fn copy_range(v: &Vec<char>, b: usize, e: usize) -> (r: Vec<char>)
    requires
        b <= e <= v@.len(),
    ensures
        r@ == v@.subrange(b as int, e as int),
{
    let mut r: Vec<char> = Vec::new();
    let mut k = b;
    while k < e
        invariant
            b <= k <= e <= v@.len(),
            r@ == v@.subrange(b as int, k as int),
        decreases e - k,
    {
        r.push(v[k]);
        assert(v@.subrange(b as int, k + 1) == v@.subrange(b as int, k as int).push(v@[k as int]));
        k = k + 1;
    }
    r
}

/// The index of the first line feed at or after `from`, or `v.len()`.
fn find_newline(v: &Vec<char>, from: usize) -> (j: usize)
    requires
        from <= v@.len(),
    ensures
        j == from + first_newline(v@.skip(from as int)),
{
    let n = v.len();
    let mut j = from;
    while j < n && v[j] != '\n'
        invariant
            n == v@.len(),
            from <= j <= n,
            first_newline(v@.skip(from as int)) == (j - from) + first_newline(v@.skip(j as int)),
        decreases n - j,
    {
        assert(v@.skip(j as int).drop_first() == v@.skip(j + 1));
        j = j + 1;
    }
    if j == n {
        assert(v@.skip(j as int).len() == 0);
    }
    j
}

/// The logged form of a raw line.
fn clean_line(raw: &Vec<char>) -> (line: Vec<char>)
    ensures
        line@ == line_text(raw@),
{
    let e = trim_line_breaks_len(raw, raw.len());
    assert(raw@.take(raw@.len() as int) == raw@);
    let t = copy_range(raw, 0, e);
    assert(t@ == raw@.take(e as int));
    strip_chars(&t)
}

/// The menu the client is in after `line`, given the prompt table.
fn pick_section(line: &Vec<char>, table: &Vec<PromptRule>, current: Option<Setting>) -> (r: Option<
    Setting,
>)
    requires
        table@.len() == 3,
        forall|i: int|
            0 <= i < 3 ==> (#[trigger] table@[i]).setting == table_setting(i)
                && rule_matches_setting(table@[i]),
    ensures
        r == section_after(line@, 3, current),
{
    let mut sec = current;
    for i in 0..3
        invariant
            table@.len() == 3,
            forall|k: int|
                0 <= k < 3 ==> (#[trigger] table@[k]).setting == table_setting(k)
                    && rule_matches_setting(table@[k]),
            sec == section_after(line@, i as int, current),
    {
        let rule = &table[i];
        let h = chars_of(rule.header);
        if header_matches_chars(line, &h) {
            sec = Some(rule.setting);
        }
    }
    sec
}

/// The reader's step on decoded output `chunk`: every complete line is
/// cleaned and, when not empty, logged, updating the current menu (from
/// header lines) and the progress flag; then the incomplete rest is checked
/// for a menu prompt, which is answered from `profile` unless that menu was
/// answered before.
pub fn read_text(state: &mut ReadLoopState, chunk: &str, profile: &ConnectionProfile) -> (out:
    ChunkOutcome)
    ensures
        ({
            let text = chunk@;
            let (sc, rest) = chunk_scan(old(state)@, text);
            &&& final(state)@ == chunk_next(old(state)@, text)
            &&& out.lines@.map_values(|l: String| l@) == sc.lines
            &&& match chunk_answer(old(state)@, text) {
                Some(s) => out.reply is Some && out.reply->0@ == answer_text(*profile, s)
                    + "\r\n"@,
                None => out.reply is None,
            }
            &&& out.prompts_done == (sc.saw_marker || (chunk_answer(old(state)@, text) is Some
                && all_answered(final(state)@.answered)))
        }),
{
    let ghost old_view = state@;
    let ghost text_in = chunk@;
    let buf_len = state.line_buf.len();
    let mut text = copy_range(&state.line_buf, 0, buf_len);
    assert(text@ == old_view.buffer);
    let mut fresh = chars_of(chunk);
    text.append(&mut fresh);
    assert(text@ == old_view.buffer + text_in);

    let table = prompt_table();
    let marker = chars_of("hunting for a working");
    let n = text.len();
    let mut start: usize = 0;
    let mut section = state.current_section;
    let mut saw = false;
    let mut lines: Vec<String> = Vec::new();
    let ghost sc0 = LineScan { section: old_view.section, lines: seq![], saw_marker: false };
    assert(text@.skip(0) == text@);
    assert(lines@.map_values(|l: String| l@) == Seq::<Seq<char>>::empty());
    loop
        invariant
            n == text@.len(),
            start <= n,
            table@.len() == 3,
            forall|k: int|
                0 <= k < 3 ==> (#[trigger] table@[k]).setting == table_setting(k)
                    && rule_matches_setting(table@[k]),
            marker@ == progress_marker(),
            scan_text(sc0, text@) == scan_text(
                LineScan {
                    section: section,
                    lines: lines@.map_values(|l: String| l@),
                    saw_marker: saw,
                },
                text@.skip(start as int),
            ),
        ensures
            start <= n,
            scan_text(sc0, text@) == (
                LineScan {
                    section: section,
                    lines: lines@.map_values(|l: String| l@),
                    saw_marker: saw,
                },
                text@.skip(start as int),
            ),
        decreases n - start,
    {
        let ghost rest = text@.skip(start as int);
        let ghost sc = LineScan {
            section: section,
            lines: lines@.map_values(|l: String| l@),
            saw_marker: saw,
        };
        let j = find_newline(&text, start);
        proof {
            lemma_first_newline(rest);
        }
        if j == n {
            break ;
        }
        let raw = copy_range(&text, start, j + 1);
        assert(raw@ == rest.take(j - start + 1));
        assert(rest.skip(j - start + 1) == text@.skip(j + 1));
        let line = clean_line(&raw);
        if line.len() > 0 {
            section = pick_section(&line, &table, section);
            let has_marker = contains_chars(&line, &marker);
            saw = saw || has_marker;
            let s = string_of(&line);
            let ghost before = lines@;
            lines.push(s);
            assert(lines@.map_values(|l: String| l@) == before.map_values(|l: String| l@).push(
                line@,
            ));
        }
        start = j + 1;
    }
    let rest = copy_range(&text, start, n);
    assert(rest@ == text@.skip(start as int));
    let partial = strip_chars(&rest);
    let mut reply: Option<String> = None;
    let mut done_by_answer = false;
    state.line_buf = rest;
    state.current_section = section;
    if is_choice_prompt_chars(&partial) {
        match section {
            Some(sec) => {
                if !state.is_answered(sec) {
                    let rule = &table[table_position(sec)];
                    let mut ans = rule.answer(profile);
                    let end = String::from_str("\r\n");
                    ans.append(end.as_str());
                    reply = Some(ans);
                    state.mark_answered(sec);
                    done_by_answer = state.is_answered(Setting::Protocol) && state.is_answered(
                        Setting::ScanMode,
                    ) && state.is_answered(Setting::IpVersion);
                }
            },
            None => {},
        }
    }
    ChunkOutcome { lines, reply, prompts_done: saw || done_by_answer }
}

/// One pass of the read loop over a chunk of bytes just read from the
/// client's terminal: the bytes are decoded (invalid UTF-8 replaced) and
/// handed to `read_text`.
pub fn read_loop(state: &mut ReadLoopState, chunk: &[u8], profile: &ConnectionProfile) -> (out:
    ChunkOutcome)
    ensures
        valid_utf8(chunk@) ==> utf8_lossy(chunk@) == decode_utf8(chunk@),
        ({
            let text = utf8_lossy(chunk@);
            let (sc, rest) = chunk_scan(old(state)@, text);
            &&& final(state)@ == chunk_next(old(state)@, text)
            &&& out.lines@.map_values(|l: String| l@) == sc.lines
            &&& match chunk_answer(old(state)@, text) {
                Some(s) => out.reply is Some && out.reply->0@ == answer_text(*profile, s)
                    + "\r\n"@,
                None => out.reply is None,
            }
            &&& out.prompts_done == (sc.saw_marker || (chunk_answer(old(state)@, text) is Some
                && all_answered(final(state)@.answered)))
        }),
{
    let decoded = decode_lossy(chunk);
    read_text(state, decoded.as_str(), profile)
}

/// The position of `s` in the prompt table.
fn table_position(s: Setting) -> (i: usize)
    ensures
        i < 3,
        table_setting(i as int) == s,
{
    match s {
        Setting::Protocol => 0,
        Setting::ScanMode => 1,
        Setting::IpVersion => 2,
    }
}


proof fn lemma_first_newline_concat(a: Seq<char>, b: Seq<char>)
    requires
        first_newline(a) < a.len(),
    ensures
        first_newline(a + b) == first_newline(a),
    decreases a.len(),
{
    if a[0] != '\n' {
        assert((a + b).drop_first() == a.drop_first() + b);
        lemma_first_newline_concat(a.drop_first(), b);
    }
}

/// Line handling does not depend on how the output is split into reads:
/// scanning `a + b` gives what scanning `a` and then its incomplete rest
/// followed by `b` gives.
pub proof fn lemma_scan_split(sc: LineScan, a: Seq<char>, b: Seq<char>)
    ensures
        scan_text(sc, a + b) == {
            let (sc1, rest) = scan_text(sc, a);
            scan_text(sc1, rest + b)
        },
    decreases a.len(),
{
    let i = first_newline(a) as int;
    lemma_first_newline(a);
    if i < a.len() {
        lemma_first_newline_concat(a, b);
        assert((a + b).take(i + 1) == a.take(i + 1));
        assert((a + b).skip(i + 1) == a.skip(i + 1) + b);
        lemma_scan_split(scan_line(sc, a.take(i + 1)), a.skip(i + 1), b);
    }
}

/// The incomplete rest never holds a line feed: every complete line has
/// been taken out.
pub proof fn lemma_rest_has_no_newline(sc: LineScan, text: Seq<char>)
    ensures
        forall|k: int|
            0 <= k < scan_text(sc, text).1.len() ==> scan_text(sc, text).1[k] != '\n',
    decreases text.len(),
{
    let i = first_newline(text) as int;
    lemma_first_newline(text);
    if i < text.len() {
        let sc1 = scan_line(sc, text.take(i + 1));
        lemma_rest_has_no_newline(sc1, text.skip(i + 1));
        assert(scan_text(sc, text) == scan_text(sc1, text.skip(i + 1)));
    } else {
        assert(scan_text(sc, text).1 == text);
        assert forall|k: int| 0 <= k < text.len() implies text[k] != '\n' by {
            assert(k < first_newline(text));
        }
    }
}

/// Only non-empty lines are logged, after those already collected.
pub proof fn lemma_logged_lines_nonempty(sc: LineScan, text: Seq<char>)
    ensures
        scan_text(sc, text).0.lines.len() >= sc.lines.len(),
        forall|k: int| 0 <= k < sc.lines.len() ==> scan_text(sc, text).0.lines[k] == sc.lines[k],
        forall|k: int|
            sc.lines.len() <= k < scan_text(sc, text).0.lines.len() ==> scan_text(
                sc,
                text,
            ).0.lines[k].len() > 0,
    decreases text.len(),
{
    let i = first_newline(text) as int;
    lemma_first_newline(text);
    if i < text.len() {
        let sc1 = scan_line(sc, text.take(i + 1));
        lemma_logged_lines_nonempty(sc1, text.skip(i + 1));
        assert(scan_text(sc, text) == scan_text(sc1, text.skip(i + 1)));
        assert(sc1.lines.len() >= sc.lines.len());
        assert(forall|k: int| 0 <= k < sc.lines.len() ==> sc1.lines[k] == sc.lines[k]);
        assert(forall|k: int| sc.lines.len() <= k < sc1.lines.len() ==> sc1.lines[k].len() > 0);
        let r = scan_text(sc, text).0.lines;
        assert forall|k: int| sc.lines.len() <= k < r.len() implies r[k].len() > 0 by {
            if k < sc1.lines.len() {
                assert(r[k] == sc1.lines[k]);
            }
        }
    } else {
        assert(scan_text(sc, text).0 == sc);
    }
}

/// The states after each chunk of a run, starting from `v`.
pub open spec fn run_states(v: ReadLoopView, texts: Seq<Seq<char>>) -> Seq<ReadLoopView>
    decreases texts.len(),
{
    if texts.len() == 0 {
        seq![v]
    } else {
        seq![v] + run_states(chunk_next(v, texts[0]), texts.drop_first())
    }
}

proof fn lemma_run_states(v: ReadLoopView, texts: Seq<Seq<char>>)
    ensures
        run_states(v, texts).len() == texts.len() + 1,
        run_states(v, texts)[0] == v,
        forall|i: int|
            0 <= i < texts.len() ==> #[trigger] run_states(v, texts)[i + 1] == chunk_next(
                run_states(v, texts)[i],
                texts[i],
            ),
        forall|i: int, j: int|
            #![trigger run_states(v, texts)[i], run_states(v, texts)[j]]
            0 <= i <= j <= texts.len() ==> run_states(v, texts)[i].answered.subset_of(
                run_states(v, texts)[j].answered,
            ),
    decreases texts.len(),
{
    if texts.len() > 0 {
        let v1 = chunk_next(v, texts[0]);
        let rest = texts.drop_first();
        lemma_run_states(v1, rest);
        let rs = run_states(v, texts);
        assert(rs == seq![v] + run_states(v1, rest));
        assert forall|i: int| 0 <= i < texts.len() implies #[trigger] rs[i + 1] == chunk_next(
            rs[i],
            texts[i],
        ) by {
            if i > 0 {
                assert(rest[i - 1] == texts[i]);
                assert(run_states(v1, rest)[(i - 1) + 1] == chunk_next(
                    run_states(v1, rest)[i - 1],
                    rest[i - 1],
                ));
            }
        }
        assert(v.answered.subset_of(v1.answered));
        assert forall|i: int, j: int|
            #![trigger rs[i], rs[j]]
            0 <= i <= j <= texts.len() implies rs[i].answered.subset_of(rs[j].answered) by {
            if i == 0 {
                if j > 0 {
                    assert(run_states(v1, rest)[0].answered.subset_of(
                        run_states(v1, rest)[j - 1].answered,
                    ));
                }
            } else {
                assert(run_states(v1, rest)[i - 1].answered.subset_of(
                    run_states(v1, rest)[j - 1].answered,
                ));
            }
        }
    }
}

/// Each menu is answered at most once over any run of output: if the
/// `i`-th chunk answers a menu, no later chunk answers it again, and the
/// menu stays answered.
pub proof fn lemma_answer_once(v: ReadLoopView, texts: Seq<Seq<char>>, i: int, j: int)
    requires
        0 <= i < j < texts.len(),
        chunk_answer(run_states(v, texts)[i], texts[i]) is Some,
    ensures
        chunk_answer(run_states(v, texts)[j], texts[j]) != chunk_answer(
            run_states(v, texts)[i],
            texts[i],
        ),
        run_states(v, texts)[j].answered.contains(
            chunk_answer(run_states(v, texts)[i], texts[i])->0,
        ),
{
    lemma_run_states(v, texts);
    let rs = run_states(v, texts);
    let s = chunk_answer(rs[i], texts[i])->0;
    assert(rs[i + 1] == chunk_next(rs[i], texts[i]));
    assert(rs[i + 1].answered.contains(s));
    assert(rs[i + 1].answered.subset_of(rs[j].answered));
}

/// The scan of a text from a fresh accumulator with the given menu.
pub open spec fn fresh_scan(section: Option<Setting>) -> LineScan {
    LineScan { section: section, lines: seq![], saw_marker: false }
}

/// What has been collected before does not change what a text adds: its
/// lines are appended, and the menu and the incomplete rest are as from a
/// fresh start.
pub proof fn lemma_scan_accumulates(sc: LineScan, t: Seq<char>)
    ensures
        scan_text(sc, t).0.lines == sc.lines + scan_text(fresh_scan(sc.section), t).0.lines,
        scan_text(sc, t).0.section == scan_text(fresh_scan(sc.section), t).0.section,
        scan_text(sc, t).1 == scan_text(fresh_scan(sc.section), t).1,
    decreases t.len(),
{
    let base = fresh_scan(sc.section);
    let i = first_newline(t) as int;
    lemma_first_newline(t);
    if i < t.len() {
        let raw = t.take(i + 1);
        let rest = t.skip(i + 1);
        let sc1 = scan_line(sc, raw);
        let b1 = scan_line(base, raw);
        assert(sc1.section == b1.section);
        assert(sc1.lines == sc.lines + b1.lines);
        lemma_scan_accumulates(sc1, rest);
        lemma_scan_accumulates(b1, rest);
        assert(scan_text(sc, t) == scan_text(sc1, rest));
        assert(scan_text(base, t) == scan_text(b1, rest));
        let tail = scan_text(fresh_scan(sc1.section), rest).0.lines;
        assert(sc1.lines + tail == sc.lines + (b1.lines + tail));
    } else {
        assert(sc.lines + Seq::<Seq<char>>::empty() == sc.lines);
    }
}

/// The incomplete rest after a chunk never holds a line feed.
pub proof fn lemma_chunk_rest_has_no_newline(v: ReadLoopView, text: Seq<char>)
    ensures
        forall|k: int|
            0 <= k < chunk_next(v, text).buffer.len() ==> chunk_next(v, text).buffer[k] != '\n',
{
    lemma_rest_has_no_newline(fresh_scan(v.section), v.buffer + text);
}

/// Two reads give the lines that one read of their concatenation gives,
/// and leave the same incomplete rest and menu.
pub proof fn lemma_two_reads(v: ReadLoopView, t1: Seq<char>, t2: Seq<char>)
    ensures
        chunk_scan(v, t1).0.lines + chunk_scan(chunk_next(v, t1), t2).0.lines == chunk_scan(
            v,
            t1 + t2,
        ).0.lines,
        chunk_scan(chunk_next(v, t1), t2).1 == chunk_scan(v, t1 + t2).1,
        chunk_scan(chunk_next(v, t1), t2).0.section == chunk_scan(v, t1 + t2).0.section,
{
    let base = fresh_scan(v.section);
    assert(v.buffer + (t1 + t2) == (v.buffer + t1) + t2);
    lemma_scan_split(base, v.buffer + t1, t2);
    let (sc1, r1) = scan_text(base, v.buffer + t1);
    lemma_scan_accumulates(sc1, r1 + t2);
    assert(chunk_next(v, t1).buffer == r1);
    assert(chunk_next(v, t1).section == sc1.section);
    assert(chunk_next(v, t1).buffer + t2 == r1 + t2);
}

/// The texts of a run of reads, one after another.
pub open spec fn joined(texts: Seq<Seq<char>>) -> Seq<char>
    decreases texts.len(),
{
    if texts.len() == 0 {
        seq![]
    } else {
        texts[0] + joined(texts.drop_first())
    }
}

/// The lines logged over a run of reads, in order.
pub open spec fn run_lines(v: ReadLoopView, texts: Seq<Seq<char>>) -> Seq<Seq<char>>
    decreases texts.len(),
{
    if texts.len() == 0 {
        seq![]
    } else {
        chunk_scan(v, texts[0]).0.lines + run_lines(chunk_next(v, texts[0]), texts.drop_first())
    }
}

/// Logged lines do not depend on how the output is split into reads: over
/// any run of reads, from a state whose pending text holds no line feed (as
/// every state the reader reaches), the lines returned one read after
/// another are those that a single read of the whole output returns.
pub proof fn lemma_lines_independent_of_reads(v: ReadLoopView, texts: Seq<Seq<char>>)
    requires
        forall|k: int| 0 <= k < v.buffer.len() ==> v.buffer[k] != '\n',
    ensures
        run_lines(v, texts) == chunk_scan(v, joined(texts)).0.lines,
    decreases texts.len(),
{
    if texts.len() == 0 {
        let base = fresh_scan(v.section);
        lemma_first_newline(v.buffer);
        if first_newline(v.buffer) < v.buffer.len() {
            assert(v.buffer[first_newline(v.buffer) as int] == '\n');
        }
        assert(v.buffer + Seq::<char>::empty() == v.buffer);
        assert(chunk_scan(v, joined(texts)) == (base, v.buffer));
    } else {
        let v1 = chunk_next(v, texts[0]);
        lemma_chunk_rest_has_no_newline(v, texts[0]);
        lemma_lines_independent_of_reads(v1, texts.drop_first());
        lemma_two_reads(v, texts[0], joined(texts.drop_first()));
    }
}

/// Decoding valid UTF-8 reads one after another gives the decoding of the
/// whole output.
pub proof fn lemma_decode_concat(a: Seq<u8>, b: Seq<u8>)
    requires
        valid_utf8(a),
        valid_utf8(b),
    ensures
        valid_utf8(a + b),
        decode_utf8(a + b) == decode_utf8(a) + decode_utf8(b),
{
    valid_utf8_concat(a, b);
    let ab = a + b;
    if b.len() == 0 {
        assert(ab == a);
        assert(decode_utf8(b) == Seq::<char>::empty());
        assert(decode_utf8(a) + decode_utf8(b) == decode_utf8(a));
    } else {
        is_char_boundary_start_end_of_seq(b);
        is_char_boundary_iff_not_is_continuation_byte(b, 0);
        assert(ab[a.len() as int] == b[0]);
        is_char_boundary_start_end_of_seq(ab);
        is_char_boundary_iff_not_is_continuation_byte(ab, a.len() as int);
        decode_utf8_split(ab, a.len() as int);
        assert(ab.subrange(0, a.len() as int) == a);
        assert(ab.subrange(a.len() as int, ab.len() as int) == b);
    }
}

/// The bytes of a run of reads, one after another.
pub open spec fn joined_bytes(chunks: Seq<Seq<u8>>) -> Seq<u8>
    decreases chunks.len(),
{
    if chunks.len() == 0 {
        seq![]
    } else {
        chunks[0] + joined_bytes(chunks.drop_first())
    }
}

/// The decoded texts of a run of reads.
pub open spec fn decoded_reads(chunks: Seq<Seq<u8>>) -> Seq<Seq<char>> {
    chunks.map_values(|c: Seq<u8>| decode_utf8(c))
}

proof fn lemma_decoded_reads_joined(chunks: Seq<Seq<u8>>)
    requires
        forall|i: int| 0 <= i < chunks.len() ==> valid_utf8(#[trigger] chunks[i]),
    ensures
        valid_utf8(joined_bytes(chunks)),
        joined(decoded_reads(chunks)) == decode_utf8(joined_bytes(chunks)),
    decreases chunks.len(),
{
    if chunks.len() == 0 {
        assert(decoded_reads(chunks) == Seq::<Seq<char>>::empty());
    } else {
        let rest = chunks.drop_first();
        assert forall|i: int| 0 <= i < rest.len() implies valid_utf8(#[trigger] rest[i]) by {
            assert(rest[i] == chunks[i + 1]);
        }
        lemma_decoded_reads_joined(rest);
        assert(decoded_reads(chunks).drop_first() == decoded_reads(rest));
        lemma_decode_concat(chunks[0], joined_bytes(rest));
    }
}

/// The same holds of byte reads: when every read is valid UTF-8 (an ASCII
/// stream split anywhere, for one), the lines logged one read after another
/// are those of a single read of all the bytes.
pub proof fn lemma_lines_independent_of_byte_reads(v: ReadLoopView, chunks: Seq<Seq<u8>>)
    requires
        forall|k: int| 0 <= k < v.buffer.len() ==> v.buffer[k] != '\n',
        forall|i: int| 0 <= i < chunks.len() ==> valid_utf8(#[trigger] chunks[i]),
    ensures
        valid_utf8(joined_bytes(chunks)),
        run_lines(v, decoded_reads(chunks)) == chunk_scan(v, decode_utf8(joined_bytes(chunks))).0.lines,
{
    lemma_decoded_reads_joined(chunks);
    lemma_lines_independent_of_reads(v, decoded_reads(chunks));
}

/// Colour around a menu prompt does not hide it: pending text made of plain
/// text wrapped in control sequences (as the client prints its coloured
/// prompt) answers the same menu as the plain text alone; in particular a
/// plain prompt ending in a colon answers the current menu when it is not
/// answered yet.
pub proof fn lemma_coloured_prompt_answered(
    answered: Set<Setting>,
    section: Option<Setting>,
    b1: Seq<char>,
    l1: char,
    t: Seq<char>,
    b2: Seq<char>,
    l2: char,
)
    requires
        forall|i: int|
            0 <= i < b1.len() ==> !((0x41 <= (#[trigger] b1[i]) as u32 && (b1[i] as u32) <= 0x5a)
                || (0x61 <= (b1[i] as u32) && (b1[i] as u32) <= 0x7a)),
        forall|i: int|
            0 <= i < b2.len() ==> !((0x41 <= (#[trigger] b2[i]) as u32 && (b2[i] as u32) <= 0x5a)
                || (0x61 <= (b2[i] as u32) && (b2[i] as u32) <= 0x7a)),
        (0x41 <= (l1 as u32) && (l1 as u32) <= 0x5a) || (0x61 <= (l1 as u32) && (l1 as u32) <= 0x7a),
        (0x41 <= (l2 as u32) && (l2 as u32) <= 0x5a) || (0x61 <= (l2 as u32) && (l2 as u32) <= 0x7a),
        plain(t),
    ensures
        menu_to_answer(
            answered,
            section,
            control_sequence(b1, l1) + t + control_sequence(b2, l2),
        ) == menu_to_answer(answered, section, t),
        section is Some && !answered.contains(section->0) && trim_end(t).len() > 0 && trim_end(
            t,
        ).last() == ':' ==> menu_to_answer(
            answered,
            section,
            control_sequence(b1, l1) + t + control_sequence(b2, l2),
        ) == section,
{
    lemma_wrapped_plain_text(b1, l1, t, b2, l2);
    lemma_plain_unchanged(t);
}

} // verus!
