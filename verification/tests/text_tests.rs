use ev_control::logbook::{stamp, LogBook, MAX_LOG_LINES};
use ev_control::text::{chars_of, contains, decimal_text, push_hex4, with_number};

#[test]
fn decimal_numbers() {
    assert_eq!(decimal_text(0), "0");
    assert_eq!(decimal_text(7), "7");
    assert_eq!(decimal_text(1005), "1005");
    assert_eq!(decimal_text(u64::MAX), u64::MAX.to_string());
    assert_eq!(with_number("a", 42, "b"), "a42b");
}

#[test]
fn hex_digits() {
    let mut s = String::new();
    push_hex4(&mut s, 0xBEEF);
    push_hex4(&mut s, 0x0a);
    assert_eq!(s, "BEEF000A");
}

#[test]
fn substring_search() {
    assert!(contains("/dev/ttyusb0", "ttyusb"));
    assert!(!contains("/dev/ttyS0", "ttyusb"));
    assert!(contains("abc", ""));
    assert!(!contains("ab", "abc"));
    assert_eq!(chars_of("aé"), vec!['a', 'é']);
}

fn is_clock(ts: &str) -> bool {
    let b = ts.as_bytes();
    b.len() == 8
        && b[2] == b':'
        && b[5] == b':'
        && [0, 1, 3, 4, 6, 7].iter().all(|&i| b[i].is_ascii_digit())
        && ts[0..2].parse::<u32>().unwrap() <= 23
        && ts[3..5].parse::<u32>().unwrap() <= 59
        && ts[6..8].parse::<u32>().unwrap() <= 60
}

#[test]
fn log_lines_carry_the_time() {
    let mut log = LogBook::new();
    log.log("Reset");
    assert_eq!(log.len(), 1);
    let line = log.line(0).clone();
    assert!(line.starts_with('['));
    assert_eq!(&line[9..], "] Reset");
    assert!(is_clock(&line[1..9]));
    log.push_line("ESP32 ready");
    assert!(log.line(1).ends_with("] ESP32 ready"));
}

#[test]
fn stamped_lines() {
    assert_eq!(stamp("12:34:56", "EMERGENCY STOP"), "[12:34:56] EMERGENCY STOP");
}

#[test]
fn log_keeps_the_newest_lines() {
    let mut log = LogBook::new();
    for i in 0..(MAX_LOG_LINES + 5) {
        log.log_stamped("00:00:00", &format!("m{}", i));
    }
    assert_eq!(log.len(), MAX_LOG_LINES);
    assert_eq!(log.line(0), "[00:00:00] m5");
    assert_eq!(log.line(MAX_LOG_LINES - 1), &format!("[00:00:00] m{}", MAX_LOG_LINES + 4));
}

#[test]
fn unbounded_lines_are_not_trimmed() {
    let mut log = LogBook::new();
    for _ in 0..(MAX_LOG_LINES + 3) {
        log.push_stamped("01:02:03", "x");
    }
    assert_eq!(log.len(), MAX_LOG_LINES + 3);
    log.log_stamped("01:02:03", "y");
    assert_eq!(log.len(), MAX_LOG_LINES + 3);
}
