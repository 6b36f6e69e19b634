use aether_core::ansi::strip_ansi;
use aether_core::prompts::{looks_like_choice_prompt, prompt_table, ConnectionProfile, Setting};
use aether_core::pty::{read_loop, read_text, ReadLoopState};
use aether_core::text::{chars_of, contains_chars, decimal_chars, string_of, trim_end_len};

fn profile() -> ConnectionProfile {
    ConnectionProfile { protocol: 2, scan_mode: 3, ip_version: 1 }
}

#[test]
fn strip_removes_color_codes() {
    assert_eq!(strip_ansi("\u{1b}[32mINFO\u{1b}[0m started"), "INFO started");
}

#[test]
fn strip_removes_osc_terminated_by_bel() {
    assert_eq!(strip_ansi("a\u{1b}]0;title\u{7}b"), "ab");
}

#[test]
fn strip_removes_osc_terminated_by_st() {
    assert_eq!(strip_ansi("a\u{1b}]8;;x\u{1b}\\b"), "ab");
}

#[test]
fn strip_osc_escape_then_other_char_keeps_scanning() {
    // ESC followed by something other than a backslash does not end the command.
    assert_eq!(strip_ansi("a\u{1b}]x\u{1b}y\\z\u{7}b"), "ab");
}

#[test]
fn strip_keeps_lone_escape() {
    assert_eq!(strip_ansi("end\u{1b}"), "end\u{1b}");
    assert_eq!(strip_ansi("\u{1b}x"), "\u{1b}x");
}

#[test]
fn strip_unterminated_csi_drops_rest() {
    assert_eq!(strip_ansi("ok\u{1b}[123"), "ok");
}

#[test]
fn strip_plain_text_unchanged() {
    let s = "Protocol: (default 1) — ünïcode";
    assert_eq!(strip_ansi(s), s);
}

#[test]
fn strip_plain_prefix_kept() {
    let p = "prefix ";
    let s = "\u{1b}[1mbold\u{1b}[0m";
    assert_eq!(strip_ansi(&format!("{}{}", p, s)), format!("{}{}", p, strip_ansi(s)));
}

#[test]
fn strip_never_lengthens() {
    let s = "\u{1b}\u{1b}[31mx[\u{1b}]";
    assert!(strip_ansi(s).chars().count() <= s.chars().count());
}

#[test]
fn choice_prompt_detected() {
    assert!(looks_like_choice_prompt("Choose [1-3] (default 1): "));
    assert!(looks_like_choice_prompt("Choose [1-4] (default 2):"));
    assert!(looks_like_choice_prompt("x:\u{a0}\t"));
    assert!(!looks_like_choice_prompt("Protocol"));
    assert!(!looks_like_choice_prompt("   "));
    assert!(!looks_like_choice_prompt(""));
}

#[test]
fn table_has_three_rules_in_order() {
    let t = prompt_table();
    assert_eq!(t.len(), 3);
    assert_eq!(t[0].id, "protocol");
    assert_eq!(t[1].id, "scan_mode");
    assert_eq!(t[2].id, "ip_version");
    assert_eq!(t[0].setting, Setting::Protocol);
    assert_eq!(t[1].setting, Setting::ScanMode);
    assert_eq!(t[2].setting, Setting::IpVersion);
}

#[test]
fn headers_match_after_trimming() {
    let t = prompt_table();
    assert!(t[0].header_matches("  Protocol:  "));
    assert!(t[1].header_matches("Scan mode:"));
    assert!(t[2].header_matches("\tIP version to scan:\r"));
    assert!(!t[0].header_matches("Protocol: MASQUE"));
    assert!(!t[1].header_matches("Protocol:"));
}

#[test]
fn answers_are_menu_numbers() {
    let t = prompt_table();
    let p = profile();
    assert_eq!(t[0].answer(&p), "2");
    assert_eq!(t[1].answer(&p), "3");
    assert_eq!(t[2].answer(&p), "1");
    let big = ConnectionProfile { protocol: 255, scan_mode: 10, ip_version: 0 };
    assert_eq!(t[0].answer(&big), "255");
    assert_eq!(t[1].answer(&big), "10");
    assert_eq!(t[2].answer(&big), "0");
}

#[test]
fn decimal_rendering() {
    assert_eq!(string_of(&decimal_chars(0)), "0");
    assert_eq!(string_of(&decimal_chars(1819)), "1819");
    assert_eq!(string_of(&decimal_chars(u64::MAX)), "18446744073709551615");
}

#[test]
fn trim_and_contains_helpers() {
    let v = chars_of("ab \t\n");
    assert_eq!(trim_end_len(&v), 2);
    assert!(contains_chars(&chars_of("we are hunting for a working route"), &chars_of("hunting for a working")));
    assert!(!contains_chars(&chars_of("hunting for a"), &chars_of("hunting for a working")));
    assert!(contains_chars(&chars_of("abc"), &chars_of("")));
}

#[test]
fn lines_are_split_cleaned_and_logged() {
    let mut st = ReadLoopState::new();
    let out = read_text(&mut st, "first\r\n\u{1b}[32msecond\u{1b}[0m\n\n\r\npart", &profile());
    assert_eq!(out.lines, vec!["first".to_string(), "second".to_string()]);
    assert!(out.reply.is_none());
    assert!(!out.prompts_done);
    let out2 = read_text(&mut st, "ial line\n", &profile());
    assert_eq!(out2.lines, vec!["partial line".to_string()]);
}

#[test]
fn chunking_does_not_change_lines() {
    let text = "alpha\nbe\u{1b}[1mta\r\ngamma\n";
    let mut one = ReadLoopState::new();
    let whole = read_text(&mut one, text, &profile()).lines;
    for cut in 0..text.len() {
        if !text.is_char_boundary(cut) {
            continue;
        }
        let mut two = ReadLoopState::new();
        let mut lines = read_text(&mut two, &text[..cut], &profile()).lines;
        lines.extend(read_text(&mut two, &text[cut..], &profile()).lines);
        assert_eq!(lines, whole, "cut at {}", cut);
    }
}

#[test]
fn full_dialogue_answers_each_menu_once() {
    let p = profile();
    let mut st = ReadLoopState::new();
    let o = read_text(&mut st, "Aether v1.0.1\nProtocol:\n  1) MASQUE\nChoose [1-3] (default 1): ", &p);
    assert_eq!(o.reply.as_deref(), Some("2\r\n"));
    assert!(!o.prompts_done);
    assert!(st.is_answered(Setting::Protocol));
    // More text without a new header: the prompt is already answered.
    let o = read_text(&mut st, "", &p);
    assert!(o.reply.is_none());
    let o = read_text(&mut st, "\n\u{1b}[1mScan mode:\u{1b}[0m\nChoose [1-4] (default 2): ", &p);
    assert_eq!(o.reply.as_deref(), Some("3\r\n"));
    assert!(!o.prompts_done);
    let o = read_text(&mut st, "\nIP version to scan:\nChoose [1-3] (default 1): ", &p);
    assert_eq!(o.reply.as_deref(), Some("1\r\n"));
    assert!(o.prompts_done);
    // The same header again is not answered a second time.
    let o = read_text(&mut st, "\nProtocol:\nChoose [1-3] (default 1): ", &p);
    assert!(o.reply.is_none());
}

#[test]
fn prompt_without_known_menu_is_not_answered() {
    let mut st = ReadLoopState::new();
    let o = read_text(&mut st, "Something else:\nChoose: ", &profile());
    assert!(o.reply.is_none());
    assert_eq!(o.lines, vec!["Something else:".to_string()]);
}

#[test]
fn progress_marker_sets_done() {
    let mut st = ReadLoopState::new();
    let o = read_text(&mut st, "INFO hunting for a working route budget=120s\n", &profile());
    assert!(o.prompts_done);
    let o = read_text(&mut st, "hunting for a working", &profile());
    assert!(!o.prompts_done, "an incomplete line is not logged yet");
}

#[test]
fn bytes_are_decoded_lossily() {
    let mut st = ReadLoopState::new();
    let o = read_loop(&mut st, b"ab\xffc\n", &profile());
    assert_eq!(o.lines, vec!["ab\u{FFFD}c".to_string()]);
    let o = read_loop(&mut st, "caf\u{e9}\n".as_bytes(), &profile());
    assert_eq!(o.lines, vec!["caf\u{e9}".to_string()]);
}

#[test]
fn byte_chunking_does_not_change_lines() {
    let bytes: &[u8] = b"Protocol:\n\x1b[32mINFO\x1b[0m ready\r\nChoose: x\nlast\n";
    let mut one = ReadLoopState::new();
    let whole = read_loop(&mut one, bytes, &profile()).lines;
    for cut in 0..=bytes.len() {
        let mut two = ReadLoopState::new();
        let mut lines = read_loop(&mut two, &bytes[..cut], &profile()).lines;
        lines.extend(read_loop(&mut two, &bytes[cut..], &profile()).lines);
        assert_eq!(lines, whole, "cut at {}", cut);
    }
}

#[test]
fn strip_result_is_a_subsequence() {
    let s = "a\u{1b}[1mb\u{1b}]0;t\u{7}c\u{1b}x\u{1b}";
    let out: Vec<char> = strip_ansi(s).chars().collect();
    let mut it = s.chars();
    for c in out {
        assert!(it.any(|d| d == c), "{} not found in order", c);
    }
}
