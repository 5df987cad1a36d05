use windebug_logger::codecvt::{str_to_c_wstr, wstr_to_string};
use windebug_logger::format::{compose_line, format_body, Record};
use windebug_logger::{init, init_with_level, Level, LoggerRegistry, WinDebugLogger};

fn record(level: Level, target: &str, module: Option<&str>, message: &str) -> Record {
    Record {
        level,
        target: target.to_string(),
        module: module.map(|m| m.to_string()),
        message: message.to_string(),
    }
}

#[test]
fn level_ranks_are_ordered() {
    assert_eq!(Level::Error.as_u32(), 1);
    assert_eq!(Level::Warn.as_u32(), 2);
    assert_eq!(Level::Info.as_u32(), 3);
    assert_eq!(Level::Debug.as_u32(), 4);
    assert_eq!(Level::Trace.as_u32(), 5);
}

#[test]
fn filtering_by_threshold() {
    let logger = WinDebugLogger { level: Level::Warn };
    assert!(logger.enabled(Level::Error));
    assert!(logger.enabled(Level::Warn));
    assert!(!logger.enabled(Level::Info));
    assert!(!logger.enabled(Level::Debug));
    assert!(!logger.enabled(Level::Trace));

    assert!(logger.log(&record(Level::Error, "t", None, "m")).is_some());
    assert!(logger.log(&record(Level::Warn, "t", None, "m")).is_some());
    assert!(logger.log(&record(Level::Info, "t", None, "m")).is_none());
    assert!(logger.log(&record(Level::Trace, "t", None, "m")).is_none());
}

#[test]
fn trace_threshold_admits_everything() {
    let logger = WinDebugLogger { level: Level::Trace };
    assert!(logger.log(&record(Level::Error, "t", None, "m")).is_some());
    assert!(logger.log(&record(Level::Trace, "t", None, "m")).is_some());
}

#[test]
fn body_renders_warn_line_exactly() {
    let r = record(Level::Warn, "app::net", None, "connection lost");
    assert_eq!(format_body(&r), "WARN  [app::net] connection lost");
}

#[test]
fn body_falls_back_to_module_path() {
    let r = record(Level::Info, "", Some("crate::mod"), "started");
    assert_eq!(format_body(&r), "INFO  [crate::mod] started");
}

#[test]
fn body_with_neither_target_nor_module() {
    let r = record(Level::Error, "", None, "boom");
    assert_eq!(format_body(&r), "ERROR [] boom");
}

#[test]
fn encoding_matches_utf16() {
    let s = "héllo 𝄞 wide";
    let enc = str_to_c_wstr(s).expect("no embedded null");
    let mut expected: Vec<u16> = s.encode_utf16().collect();
    expected.push(0);
    assert_eq!(enc, expected);
}

#[test]
fn round_trip_returns_the_original() {
    for s in ["", "plain ascii", "héllo 𝄞 𝕍 world", "日本語テキスト", "a\tb\nc"] {
        let enc = str_to_c_wstr(s).expect("no embedded null");
        assert_eq!(enc.last(), Some(&0));
        let dec = wstr_to_string(&enc[..enc.len() - 1]).expect("well-formed units");
        assert_eq!(dec, s);
    }
}

#[test]
fn embedded_null_is_rejected() {
    assert!(str_to_c_wstr("bad\0msg").is_none());
    let logger = WinDebugLogger { level: Level::Trace };
    assert!(logger.log(&record(Level::Error, "t", None, "bad\0msg")).is_none());
    assert!(logger.log(&record(Level::Error, "bad\0target", None, "m")).is_none());
}

#[test]
fn ill_formed_units_are_rejected() {
    assert!(wstr_to_string(&[0xD800]).is_none());
    assert!(wstr_to_string(&[0xDC00, 0xD800]).is_none());
    assert!(wstr_to_string(&[0xD800, 0x0041]).is_none());
    assert!(wstr_to_string(&[0xD834, 0xDD1E]).is_some());
}

#[test]
fn composed_line_has_three_segments_and_one_newline() {
    let date = str_to_c_wstr("01/02/2026").unwrap();
    let time = str_to_c_wstr("03:04:05").unwrap();
    let logger = WinDebugLogger { level: Level::Trace };
    let body = logger
        .log(&record(Level::Warn, "app::net", None, "connection lost"))
        .unwrap();
    let line = compose_line(&date, &time, &body);
    assert_eq!(line.last(), Some(&0));
    let text = wstr_to_string(&line[..line.len() - 1]).unwrap();
    assert_eq!(text, "01/02/2026 03:04:05 WARN  [app::net] connection lost\n");
    assert!(text.ends_with('\n'));
    assert_eq!(text.matches('\n').count(), 1);
    let segments: Vec<&str> = text.trim_end_matches('\n').splitn(3, ' ').collect();
    assert_eq!(
        segments,
        vec!["01/02/2026", "03:04:05", "WARN  [app::net] connection lost"]
    );
}

#[test]
fn init_twice_fails_the_second_time() {
    let mut registry = LoggerRegistry::new();
    let first = init(&mut registry);
    assert!(first.is_ok());
    assert_eq!(first.unwrap().level, Level::Trace);
    let second = init(&mut registry);
    assert!(second.is_err());
}

#[test]
fn init_with_level_sets_the_threshold() {
    let mut registry = LoggerRegistry::new();
    let logger = init_with_level(&mut registry, Level::Warn).unwrap();
    assert_eq!(logger.level, Level::Warn);
    assert!(init_with_level(&mut registry, Level::Info).is_err());
    assert!(init(&mut registry).is_err());
}
