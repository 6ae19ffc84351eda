use jobpool::logs::{LogBuffer, LogLevel, AVAILABLE_SIZE, BLOCK_SIZE, TRUNCATION_MARKER_LEN};

const MARKER: &str = "...[ TRUNCATED ]...\n";

#[test]
fn new_buffer_is_empty() {
    let b = LogBuffer::new();
    assert_eq!(b.len(), 0);
    assert!(!b.is_full());
    assert_eq!(b.render(), "");
}

#[test]
fn log_renders_one_line() {
    let mut b = LogBuffer::new();
    b.log(LogLevel::INFO, "hello");
    assert_eq!(b.render(), "[INFO] hello\n");
    assert_eq!(b.len(), 13);
    assert!(!b.is_full());
}

#[test]
fn log_levels_render_their_names() {
    let mut b = LogBuffer::new();
    b.log(LogLevel::DEBUG, "a");
    b.log(LogLevel::INFO, "b");
    b.log(LogLevel::WARNING, "c");
    b.log(LogLevel::ERROR, "d");
    assert_eq!(b.render(), "[DEBUG] a\n[INFO] b\n[WARNING] c\n[ERROR] d\n");
}

#[test]
fn logf_matches_log() {
    let mut a = LogBuffer::new();
    let mut b = LogBuffer::new();
    a.log(LogLevel::WARNING, "formatted 42");
    b.logf(LogLevel::WARNING, "formatted 42");
    assert_eq!(a.render(), b.render());
}

#[test]
fn write_within_capacity_renders_exactly_those_bytes() {
    let mut b = LogBuffer::new();
    let n = b.write("abc".as_bytes());
    assert_eq!(n, 3);
    assert_eq!(b.render(), "abc");
    assert_eq!(b.len(), 3);
    assert!(!b.is_full());
}

#[test]
fn write_at_exact_capacity_is_accepted() {
    let mut b = LogBuffer::new();
    let content = vec![b'a'; AVAILABLE_SIZE];
    let n = b.write(&content);
    assert_eq!(n, AVAILABLE_SIZE);
    assert_eq!(b.len(), AVAILABLE_SIZE);
    assert!(!b.is_full());
}

#[test]
fn write_past_capacity_appends_marker_once_and_latches_full() {
    let mut b = LogBuffer::new();
    let content = vec![b'a'; AVAILABLE_SIZE - 1];
    assert_eq!(b.write(&content), AVAILABLE_SIZE - 1);
    // This write no longer fits: the marker is appended instead.
    assert_eq!(b.write("XYZ".as_bytes()), 0);
    assert!(b.is_full());
    assert_eq!(b.len(), AVAILABLE_SIZE - 1 + TRUNCATION_MARKER_LEN);
    let mut expected = String::new();
    for _ in 0..AVAILABLE_SIZE - 1 {
        expected.push('a');
    }
    expected.push_str(MARKER);
    assert_eq!(b.render(), expected);
    // Length stops growing thereafter.
    assert_eq!(b.write("more".as_bytes()), 0);
    b.log(LogLevel::ERROR, "dropped");
    assert_eq!(b.len(), AVAILABLE_SIZE - 1 + TRUNCATION_MARKER_LEN);
    assert_eq!(b.render(), expected);
}

#[test]
fn oversized_single_write_leaves_only_the_marker() {
    let mut b = LogBuffer::new();
    let content = vec![b'z'; BLOCK_SIZE + 1];
    assert_eq!(b.write(&content), 0);
    assert!(b.is_full());
    assert_eq!(b.render(), MARKER);
    assert_eq!(b.len(), TRUNCATION_MARKER_LEN);
}

#[test]
fn buffer_never_exceeds_its_allocation() {
    let mut b = LogBuffer::new();
    let chunk = vec![b'x'; 1000];
    for _ in 0..100 {
        b.write(&chunk);
    }
    assert!(b.len() <= BLOCK_SIZE);
    assert!(b.is_full());
}

#[test]
fn non_utf8_content_renders_placeholder() {
    let mut b = LogBuffer::new();
    b.write(&[0xff, 0xfe]);
    assert_eq!(b.render(), "<non-utf8 log data>");
}

#[test]
fn duplicate_keeps_content_and_flag() {
    let mut b = LogBuffer::new();
    b.log(LogLevel::INFO, "copied");
    let c = b.duplicate();
    assert_eq!(c.render(), "[INFO] copied\n");
    assert_eq!(c.len(), b.len());
    assert_eq!(c.is_full(), b.is_full());
}
