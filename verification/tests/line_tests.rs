//! Terminator collapsing, word wrap, chunking idempotence and rendering of
//! the line assembler.

use jfconsole::line_printer::{
    format_console_line, format_log_line, str_contains, Emission, LinePrinter, Stamp, TriggerHook,
};

fn stamp(s: &str) -> Stamp {
    Stamp::from_strs(s, s)
}

fn printer(width: usize) -> LinePrinter {
    LinePrinter::new("A r".to_string(), width, stamp("T0"), None)
}

fn pairs(emitted: &[Emission]) -> Vec<(String, char)> {
    emitted.iter().map(|e| (e.text.clone(), e.complete)).collect()
}

#[test]
fn crlf_pair_collapses_to_one_terminator() {
    let mut lp = printer(80);
    let now = stamp("T1");
    let emitted = lp.push_str("a\r\nb", &now);
    assert_eq!(pairs(&emitted), vec![("a".to_string(), '|')]);
    // "b" is still buffered: a lone terminator flushes it.
    let emitted = lp.push_str("\r", &stamp("T2"));
    assert_eq!(pairs(&emitted), vec![("b".to_string(), '|')]);
}

#[test]
fn doubled_cr_ends_an_empty_line() {
    let mut lp = printer(80);
    let emitted = lp.push_str("a\r\rb", &stamp("T1"));
    assert_eq!(pairs(&emitted), vec![("a".to_string(), '|'), ("".to_string(), '|')]);
    let emitted = lp.push_str("\n", &stamp("T2"));
    assert_eq!(pairs(&emitted), vec![("b".to_string(), '|')]);
}

#[test]
fn lfcr_pair_collapses_to_one_terminator() {
    let mut lp = printer(80);
    let emitted = lp.push_str("a\n\rb", &stamp("T1"));
    assert_eq!(pairs(&emitted), vec![("a".to_string(), '|')]);
    let emitted = lp.push_str("\n", &stamp("T2"));
    assert_eq!(pairs(&emitted), vec![("b".to_string(), '|')]);
}

#[test]
fn doubled_lf_ends_an_empty_line() {
    let mut lp = printer(80);
    let emitted = lp.push_str("x\n\ny", &stamp("T1"));
    assert_eq!(pairs(&emitted), vec![("x".to_string(), '|'), ("".to_string(), '|')]);
}

#[test]
fn wrap_at_last_space_keeps_tail() {
    let mut lp = printer(10);
    let emitted = lp.push_str("aaaa bbbbbbbbbb", &stamp("T1"));
    assert_eq!(pairs(&emitted), vec![("aaaa".to_string(), ' ')]);
    // The retained buffer starts with the space and holds the whole tail.
    let emitted = lp.push_str("\r", &stamp("T2"));
    assert_eq!(pairs(&emitted), vec![(" bbbbbbbbbb".to_string(), '|')]);
}

#[test]
fn no_wrap_without_space() {
    let mut lp = printer(4);
    let emitted = lp.push_str("abcdefghij\n", &stamp("T1"));
    assert_eq!(pairs(&emitted), vec![("abcdefghij".to_string(), '|')]);
}

#[test]
fn no_wrap_when_only_space_is_first() {
    let mut lp = printer(4);
    let emitted = lp.push_str(" abcdefgh\n", &stamp("T1"));
    assert_eq!(pairs(&emitted), vec![(" abcdefgh".to_string(), '|')]);
}

#[test]
fn chunked_feed_equals_single_feed() {
    let text = "hello world\r\nthis is a somewhat longer line that wraps\n\nmore\r";
    let now = stamp("N");
    let mut whole = printer(10);
    let all_at_once = pairs(&whole.push_str(text, &now));

    let mut split = printer(10);
    let mut one_by_one = Vec::new();
    for ch in text.chars() {
        let mut buf = [0u8; 4];
        let s = ch.encode_utf8(&mut buf);
        one_by_one.extend(pairs(&split.push_str(s, &now)));
    }
    assert_eq!(all_at_once, one_by_one);

    let mut split3 = printer(10);
    let mut by_threes = Vec::new();
    let bytes = text.as_bytes();
    let mut i = 0;
    while i < bytes.len() {
        let end = (i + 3).min(bytes.len());
        by_threes.extend(pairs(&split3.push_bytes(&bytes[i..end], &now)));
        i = end;
    }
    assert_eq!(all_at_once, by_threes);
}

#[test]
fn empty_chunk_changes_nothing() {
    let mut lp = printer(80);
    assert!(lp.push_str("", &stamp("T1")).is_empty());
    assert!(lp.push_bytes(b"", &stamp("T2")).is_empty());
    let emitted = lp.push_str("x\r", &stamp("T3"));
    assert_eq!(pairs(&emitted), vec![("x".to_string(), '|')]);
}

#[test]
fn alternating_terminators_keep_absorbing() {
    // After "a\r", each terminator that follows the opposite kind is
    // absorbed, so "\n\r\n" adds no further line.
    let mut lp = printer(80);
    let emitted = lp.push_str("a\r\n\r\nb", &stamp("T1"));
    assert_eq!(pairs(&emitted), vec![("a".to_string(), '|')]);
    let emitted = lp.push_str("\r", &stamp("T2"));
    assert_eq!(pairs(&emitted), vec![("b".to_string(), '|')]);
}

#[test]
fn first_emission_keeps_line_start_stamp() {
    let mut lp = printer(80);
    let now = stamp("T9");
    let emitted = lp.push_str("one\rtwo\r", &now);
    assert_eq!(emitted.len(), 2);
    // The first line began at creation time; the second began during this call.
    assert_eq!(emitted[0].stamp.log, "T0");
    assert_eq!(emitted[1].stamp.log, "T9");
}

#[test]
fn lossy_decoding_replaces_invalid_bytes() {
    let mut lp = printer(80);
    let emitted = lp.push_bytes(b"h\xffi\r", &stamp("T1"));
    assert_eq!(emitted.len(), 1);
    assert_eq!(emitted[0].text, "h\u{fffd}i");
}

#[test]
fn render_log_and_console_lines() {
    let e = Emission {
        prefix: "A r".to_string(),
        stamp: Stamp::from_strs("24-01-02 03:04:05.678", "04:05.678"),
        complete: '|',
        text: "hello".to_string(),
    };
    assert_eq!(format_log_line(&e), "A r 24-01-02 03:04:05.678 | hello");
    assert_eq!(format_console_line(&e), "A r 04:05.678 | hello");
}

#[test]
fn substring_search() {
    assert!(str_contains("IPC Comm Failure detected", "IPC Comm Failure"));
    assert!(str_contains("abc", ""));
    assert!(!str_contains("abc", "abcd"));
    assert!(!str_contains("IPC Comm", "IPC Comm Failure"));
    assert!(str_contains("xxabcxx", "abc"));
}

#[test]
fn trigger_fires_on_emitted_text() {
    let hook = TriggerHook { phrase: "WDG FAIL".to_string(), response: b"t wdg\r".to_vec() };
    let mut lp = LinePrinter::new("A r".to_string(), 80, stamp("T0"), Some(hook));
    let emitted = lp.push_str("all good\r", &stamp("T1"));
    assert!(lp.trigger_response(&emitted).is_none());
    let emitted = lp.push_str("boom WDG FAIL boom\r", &stamp("T2"));
    assert_eq!(lp.trigger_response(&emitted), Some(b"t wdg\r".to_vec()));
}
