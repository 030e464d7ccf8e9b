use trusttunnel_core::log_tail::LineAssembler;
use trusttunnel_core::process_log::ProcessLog;

#[test]
fn partial_lines_are_buffered_across_chunks() {
    let mut assembler = LineAssembler::new();
    assert!(assembler.feed("abc").is_empty());
    assert_eq!(assembler.feed("def\nxy"), vec!["abcdef"]);
    assert_eq!(assembler.pending, "xy");
    assert_eq!(assembler.feed("z\n"), vec!["xyz"]);
    assert_eq!(assembler.pending, "");
}

#[test]
fn carriage_returns_are_stripped() {
    let mut assembler = LineAssembler::new();
    assert_eq!(assembler.feed("one\r\ntwo\r\nthr"), vec!["one", "two"]);
    assert_eq!(assembler.pending, "thr");
}

#[test]
fn byte_order_mark_is_dropped_once() {
    let mut assembler = LineAssembler::new();
    assert_eq!(assembler.feed("\u{FEFF}hello\n"), vec!["hello"]);
    // a later chunk starting with the same character keeps it
    assert_eq!(assembler.feed("\u{FEFF}x\n"), vec!["\u{FEFF}x"]);
}

#[test]
fn bom_waits_for_the_first_nonempty_chunk() {
    let mut assembler = LineAssembler::new();
    assert!(assembler.feed("").is_empty());
    assert!(assembler.bom_pending);
    assert_eq!(assembler.feed("\u{FEFF}a\n"), vec!["a"]);
    assert!(!assembler.bom_pending);
}

#[test]
fn empty_lines_are_discarded() {
    let mut assembler = LineAssembler::new();
    assert_eq!(assembler.feed("a\n\n\r\nb\n"), vec!["a", "b"]);
}

#[test]
fn finish_drains_the_unterminated_tail() {
    let mut assembler = LineAssembler::new();
    assert!(assembler.feed("tail without newline").is_empty());
    assert_eq!(assembler.finish(""), vec!["tail without newline"]);
    assert_eq!(assembler.pending, "");

    let mut assembler = LineAssembler::new();
    assembler.feed("a\nb");
    assert_eq!(assembler.finish("c\nd\r"), vec!["bc", "d"]);
}

#[test]
fn assembled_lines_drive_the_process_log() {
    let mut assembler = LineAssembler::new();
    let mut log = ProcessLog::new();
    for chunk in ["\u{FEFF}starting up\r\nsocks list", "ener started\r\npartial"] {
        for line in assembler.feed(chunk) {
            log.push_line(line);
        }
    }
    for line in assembler.finish("") {
        log.push_line(line);
    }
    assert!(log.connected);
    assert_eq!(log.lines, vec!["starting up", "socks listener started", "partial"]);
}
