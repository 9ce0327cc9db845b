//! The highscore store: decimal text in, decimal text out.

use flappy_core::hiscore::{parse_highscore, render_highscore, Highscore};

#[test]
fn parse_plain_number() {
    assert_eq!(parse_highscore(b"42"), 42);
    assert_eq!(parse_highscore(b"0"), 0);
    assert_eq!(parse_highscore(b"4294967295"), u32::MAX);
}

#[test]
fn parse_surrounding_whitespace() {
    assert_eq!(parse_highscore(b"  42\n"), 42);
    assert_eq!(parse_highscore(b"\t7 \r\n"), 7);
}

#[test]
fn parse_failures_default_to_zero() {
    assert_eq!(parse_highscore(b""), 0);
    assert_eq!(parse_highscore(b"   \n"), 0);
    assert_eq!(parse_highscore(b"abc"), 0);
    assert_eq!(parse_highscore(b"12x"), 0);
    assert_eq!(parse_highscore(b"-5"), 0);
    assert_eq!(parse_highscore(b"1 2"), 0);
}

#[test]
fn parse_overflow_defaults_to_zero() {
    assert_eq!(parse_highscore(b"4294967296"), 0);
    assert_eq!(parse_highscore(b"99999999999999"), 0);
}

#[test]
fn render_decimal() {
    assert_eq!(render_highscore(0), b"0".to_vec());
    assert_eq!(render_highscore(7), b"7".to_vec());
    assert_eq!(render_highscore(1230), b"1230".to_vec());
    assert_eq!(render_highscore(u32::MAX), b"4294967295".to_vec());
}

#[test]
fn round_trip_reads_back_the_best() {
    for v in [0u32, 1, 9, 10, 99, 100, 12345, u32::MAX] {
        assert_eq!(parse_highscore(&render_highscore(v)), v);
    }
}

#[test]
fn acknowledge_write_clears_dirty() {
    let mut h = Highscore::new(7);
    assert_eq!(h.best, 7);
    assert!(!h.dirty);
    h.dirty = true;
    h.acknowledge_write();
    assert_eq!(h.best, 7);
    assert!(!h.dirty);
}
