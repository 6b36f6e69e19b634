//! The client's interactive setup prompts and how each is answered.
//!
//! The client asks for exactly three settings, always in the same order. Its
//! input line ("Choose [1-3] (default 1): ") repeats verbatim between menus,
//! so a menu is recognised by the header line that precedes it ("Protocol:",
//! "Scan mode:", "IP version to scan:"), each of which is unique.
use vstd::prelude::*;
use crate::text::{
    chars_of, decimal, decimal_chars, is_white_space, lemma_trim_end_meaning, slice_equals,
    string_of, trim, trim_end, trim_end_len, trim_start_index,
};

verus! {

/// One of the settings the client prompts for.
#[derive(Clone, Copy, Debug, PartialEq, Eq, Structural)]
pub enum Setting {
    Protocol,
    ScanMode,
    IpVersion,
}

/// The saved connection settings, each given as the number of its entry in
/// the client's menu for that setting.
#[derive(Clone, Copy, Debug, PartialEq, Eq, Structural)]
pub struct ConnectionProfile {
    pub protocol: u8,
    pub scan_mode: u8,
    pub ip_version: u8,
}

impl ConnectionProfile {
    /// The menu entry this profile picks for `s`.
    pub open spec fn choice(self, s: Setting) -> u8 {
        match s {
            Setting::Protocol => self.protocol,
            Setting::ScanMode => self.scan_mode,
            Setting::IpVersion => self.ip_version,
        }
    }

    /// The menu entry this profile picks for `s`.
    pub fn menu_choice(&self, s: Setting) -> (c: u8)
        ensures
            c == self.choice(s),
    {
        match s {
            Setting::Protocol => self.protocol,
            Setting::ScanMode => self.scan_mode,
            Setting::IpVersion => self.ip_version,
        }
    }
}

/// The identifier of the rule for `s`.
pub open spec fn rule_id(s: Setting) -> Seq<char> {
    match s {
        Setting::Protocol => "protocol"@,
        Setting::ScanMode => "scan_mode"@,
        Setting::IpVersion => "ip_version"@,
    }
}

/// The header line that introduces the menu for `s`.
pub open spec fn header_text(s: Setting) -> Seq<char> {
    match s {
        Setting::Protocol => "Protocol:"@,
        Setting::ScanMode => "Scan mode:"@,
        Setting::IpVersion => "IP version to scan:"@,
    }
}

/// The position of `s` in the prompt table (the order the client asks in).
pub open spec fn table_index(s: Setting) -> int {
    match s {
        Setting::Protocol => 0,
        Setting::ScanMode => 1,
        Setting::IpVersion => 2,
    }
}

/// The setting at position `i` of the prompt table.
pub open spec fn table_setting(i: int) -> Setting {
    if i == 0 {
        Setting::Protocol
    } else if i == 1 {
        Setting::ScanMode
    } else {
        Setting::IpVersion
    }
}

/// How one known prompt is recognised and answered.
pub struct PromptRule {
    pub id: &'static str,
    /// The header line (compared after trimming whitespace) that opens the
    /// menu this rule answers.
    pub header: &'static str,
    pub setting: Setting,
}

/// `rule` is the table's rule for its setting.
pub open spec fn rule_matches_setting(rule: PromptRule) -> bool {
    &&& rule.id@ == rule_id(rule.setting)
    &&& rule.header@ == header_text(rule.setting)
}

/// The answer text for `s` under `profile`: the decimal menu number.
pub open spec fn answer_text(profile: ConnectionProfile, s: Setting) -> Seq<char> {
    decimal(profile.choice(s) as nat)
}

/// The line is that setting's menu header: the line with surrounding
/// whitespace removed is exactly the header text.
pub open spec fn is_header_for(line: Seq<char>, s: Setting) -> bool {
    trim(line) == header_text(s)
}

impl PromptRule {
    /// Whether `line` is this rule's header line.
    pub fn header_matches(&self, line: &str) -> (r: bool)
        ensures
            r == (trim(line@) == self.header@),
    {
        let v = chars_of(line);
        let h = chars_of(self.header);
        header_matches_chars(&v, &h)
    }

    /// The text to type in reply to this rule's menu.
    pub fn answer(&self, profile: &ConnectionProfile) -> (r: String)
        ensures
            r@ == answer_text(*profile, self.setting),
    {
        let v = decimal_chars(profile.menu_choice(self.setting) as u64);
        string_of(&v)
    }
}

/// Whether the trimmed `line` equals `header`.
pub fn header_matches_chars(line: &Vec<char>, header: &Vec<char>) -> (r: bool)
    ensures
        r == (trim(line@) == header@),
{
    let e = trim_end_len(line);
    let b = trim_start_index(line, e);
    slice_equals(line, b, e, header)
}

/// The known prompts, in the order the client asks them.
pub fn prompt_table() -> (t: Vec<PromptRule>)
    ensures
        t@.len() == 3,
        forall|i: int|
            0 <= i < 3 ==> (#[trigger] t@[i]).setting == table_setting(i) && rule_matches_setting(
                t@[i],
            ),
{
    let mut t: Vec<PromptRule> = Vec::new();
    t.push(PromptRule { id: "protocol", header: "Protocol:", setting: Setting::Protocol });
    t.push(PromptRule { id: "scan_mode", header: "Scan mode:", setting: Setting::ScanMode });
    t.push(
        PromptRule {
            id: "ip_version",
            header: "IP version to scan:",
            setting: Setting::IpVersion,
        },
    );
    t
}

/// The text looks like the client blocking on a menu choice: once trailing
/// whitespace is removed it ends with a colon.
pub open spec fn is_choice_prompt(s: Seq<char>) -> bool {
    trim_end(s).len() > 0 && trim_end(s).last() == ':'
}

/// Whether `v` looks like the client waiting for a menu choice.
pub fn is_choice_prompt_chars(v: &Vec<char>) -> (r: bool)
    ensures
        r == is_choice_prompt(v@),
{
    let e = trim_end_len(v);
    e > 0 && v[e - 1] == ':'
}

/// True for a line that looks like the client blocking on stdin for a menu
/// choice ("Choose [1-3] (default 1): " and the like: it always ends with a
/// colon, with no newline after it since the client waits right there).
pub fn looks_like_choice_prompt(partial_line: &str) -> (r: bool)
    ensures
        r == is_choice_prompt(partial_line@),
{
    let v = chars_of(partial_line);
    is_choice_prompt_chars(&v)
}

/// The three header lines are distinct, so a line is the header of at most
/// one menu.
pub proof fn lemma_headers_distinct(line: Seq<char>, a: Setting, b: Setting)
    requires
        is_header_for(line, a),
        is_header_for(line, b),
    ensures
        a == b,
{
    reveal_strlit("Protocol:");
    reveal_strlit("Scan mode:");
    reveal_strlit("IP version to scan:");
    assert("Protocol:"@[0] != "Scan mode:"@[0]);
    assert("Protocol:"@.len() != "IP version to scan:"@.len());
    assert("Scan mode:"@.len() != "IP version to scan:"@.len());
}

/// What a menu prompt is: some colon in the text is followed only by
/// whitespace.
pub proof fn lemma_choice_prompt_meaning(s: Seq<char>)
    ensures
        is_choice_prompt(s) <==> exists|i: int|
            0 <= i < s.len() && s[i] == ':' && forall|j: int|
                i < j < s.len() ==> is_white_space(#[trigger] s[j]),
{
    lemma_trim_end_meaning(s);
    let k = choose|k: int|
        0 <= k <= s.len() && trim_end(s) == s.take(k) && (k == 0 || !is_white_space(s[k - 1]))
            && forall|j: int| k <= j < s.len() ==> is_white_space(#[trigger] s[j]);
    assert(!is_white_space(':'));
    if is_choice_prompt(s) {
        let i = k - 1;
        assert(s[i] == trim_end(s).last());
        assert(forall|j: int| i < j < s.len() ==> is_white_space(#[trigger] s[j]));
    }
    if exists|i: int|
        0 <= i < s.len() && s[i] == ':' && forall|j: int|
            i < j < s.len() ==> is_white_space(#[trigger] s[j]) {
        let i = choose|i: int|
            0 <= i < s.len() && s[i] == ':' && forall|j: int|
                i < j < s.len() ==> is_white_space(#[trigger] s[j]);
        if k <= i {
            assert(is_white_space(s[i]));
        }
        if k - 1 > i {
            assert(is_white_space(s[k - 1]));
        }
        assert(k - 1 == i);
        assert(trim_end(s).last() == s[i]);
    }
}

} // verus!
