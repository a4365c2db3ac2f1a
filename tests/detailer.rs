use std::sync::atomic::{AtomicUsize, Ordering};
use std::sync::Arc;

use detailer::{DetailScopeGuard, Detailer, Level, LevelFilter, TimingSetting};

const LEVELS: [Level; 5] = [Level::Error, Level::Warn, Level::Info, Level::Debug, Level::Trace];
const FILTERS: [LevelFilter; 6] = [
    LevelFilter::Off,
    LevelFilter::Error,
    LevelFilter::Warn,
    LevelFilter::Info,
    LevelFilter::Debug,
    LevelFilter::Trace,
];

fn untimed(level: LevelFilter) -> Detailer {
    Detailer::new(level, TimingSetting::WithoutTiming)
}

/// Splits a timed line into its stamp and the text after the stamp field.
fn split_stamp(line: &str) -> (u64, &str) {
    let field = &line[..7];
    assert_eq!(field.as_bytes()[6], b' ', "stamp field of {line:?}");
    let digits = field.trim_end();
    assert!(!digits.is_empty() && digits.bytes().all(|b| b.is_ascii_digit()), "{line:?}");
    assert!(field[digits.len()..].bytes().all(|b| b == b' '));
    (digits.parse().unwrap(), &line[7..])
}

#[test]
fn log_keeps_a_line_iff_its_level_passes() {
    for (fi, filter) in FILTERS.iter().enumerate() {
        for (li, level) in LEVELS.iter().enumerate() {
            let mut d = untimed(*filter);
            d.log(*level, "msg");
            let kept = li + 1 <= fi;
            if kept {
                assert_eq!(d.peek(), "msg\n", "{level:?} under {filter:?}");
            } else {
                assert_eq!(d.peek(), "", "{level:?} under {filter:?}");
            }
            assert_eq!(level.passes(*filter), kept);
        }
    }
}

#[test]
fn off_detailer_keeps_nothing() {
    let mut d = Detailer::new(LevelFilter::Off, TimingSetting::WithTiming);
    for level in LEVELS {
        d.log(level, "never");
    }
    {
        let _g = d.scope("scope");
        d.error("inside");
    }
    d.error("after");
    assert_eq!(d.peek().len(), 0);
    assert_eq!(d.flush(), None);
}

#[test]
fn nested_scopes_return_depth_to_zero() {
    let mut d = untimed(LevelFilter::Info);
    d.info("a");
    {
        let _outer = d.scope("outer");
        d.info("b");
        {
            let _inner = d.scope("inner");
            d.info("c");
        }
        d.info("d");
    }
    d.info("e");
    assert_eq!(d.peek(), "a\nouter\n  b\n  inner\n    c\n  d\ne\n");
}

#[test]
fn guards_released_out_of_order_still_balance() {
    let mut d = untimed(LevelFilter::Debug);
    let outer = d.scope("one");
    let inner = d.scope("two");
    d.debug("deep");
    drop(outer);
    d.debug("middle");
    drop(inner);
    d.debug("top");
    assert_eq!(d.peek(), "one\n  two\n    deep\n  middle\ntop\n");
}

#[test]
fn guard_counts_on_its_counter() {
    let counter = Arc::new(AtomicUsize::new(0));
    let a = DetailScopeGuard::new(counter.clone());
    assert_eq!(counter.load(Ordering::Relaxed), 1);
    let b = DetailScopeGuard::new(counter.clone());
    assert_eq!(counter.load(Ordering::Relaxed), 2);
    drop(b);
    assert_eq!(counter.load(Ordering::Relaxed), 1);
    drop(a);
    assert_eq!(counter.load(Ordering::Relaxed), 0);
}

#[test]
fn indentation_is_two_spaces_a_level() {
    for depth in 0..5usize {
        let mut d = untimed(LevelFilter::Trace);
        d.append(depth, 0, "text");
        let expected = format!("{}text\n", " ".repeat(2 * depth));
        assert_eq!(d.peek(), expected);
    }
}

#[test]
fn multi_line_message_is_indented_on_every_line() {
    let mut d = untimed(LevelFilter::Info);
    let _g = d.scope("s");
    d.info("first\nsecond\n\nfourth");
    assert_eq!(d.peek(), "s\n  first\n  second\n  \n  fourth\n");
}

#[test]
fn multi_line_message_at_depth_zero_is_written_whole() {
    let mut d = untimed(LevelFilter::Info);
    d.info("first\n  second");
    assert_eq!(d.peek(), "first\n  second\n");
}

#[test]
fn multi_line_message_is_stamped_once() {
    let mut d = Detailer::new(LevelFilter::Info, TimingSetting::WithTiming);
    d.append(1, 42, "a\nb");
    assert_eq!(d.peek(), "42       a\n  b\n");
}

#[test]
fn stamps_are_left_justified_in_six_columns() {
    let mut d = Detailer::new(LevelFilter::Info, TimingSetting::WithTiming);
    d.append(0, 0, "zero");
    d.append(0, 42, "x");
    d.append(0, 123456, "six");
    d.append(0, 1234567, "seven");
    assert_eq!(d.peek(), "0      zero\n42     x\n123456 six\n1234567 seven\n");
}

#[test]
fn stamps_never_go_back_within_a_cycle() {
    let mut d = Detailer::new(LevelFilter::Info, TimingSetting::WithTiming);
    d.append(0, 500, "late");
    d.append(0, 7, "early reading");
    assert_eq!(d.peek(), "500    late\n500    early reading\n");
    d.reset();
    d.append(0, 7, "new cycle");
    assert_eq!(d.peek(), "7      new cycle\n");
}

#[test]
fn untimed_append_ignores_the_clock() {
    let mut d = untimed(LevelFilter::Info);
    d.append(0, 99, "plain");
    assert_eq!(d.peek(), "plain\n");
}

#[test]
fn logged_timestamps_are_non_decreasing() {
    let mut d = Detailer::new(LevelFilter::Trace, TimingSetting::WithTiming);
    for i in 0..50 {
        d.trace(&format!("line {i}"));
    }
    let mut last = 0u64;
    for (i, line) in d.peek().lines().enumerate() {
        let (stamp, text) = split_stamp(line);
        assert_eq!(text, format!("line {i}"));
        assert!(stamp >= last);
        last = stamp;
    }
}

#[test]
fn flush_hands_back_trimmed_text_once() {
    let mut d = untimed(LevelFilter::Warn);
    d.warn("careful");
    d.error("broken");
    assert_eq!(d.flush(), Some((Level::Warn, String::from("careful\nbroken"))));
    assert_eq!(d.peek(), "");
    assert_eq!(d.flush(), None);
}

#[test]
fn flush_trims_unicode_white_space() {
    let mut d = untimed(LevelFilter::Info);
    d.info("keep \t\u{3000}");
    assert_eq!(d.flush(), Some((Level::Info, String::from("keep"))));
}

#[test]
fn flush_of_white_space_emits_nothing() {
    let mut d = untimed(LevelFilter::Info);
    d.info("  \t ");
    assert_eq!(d.peek(), "  \t \n");
    assert_eq!(d.flush(), None);
    assert_eq!(d.peek(), "");
}

#[test]
fn flush_record_takes_the_threshold_level() {
    for (filter, level) in [
        (LevelFilter::Error, Level::Error),
        (LevelFilter::Warn, Level::Warn),
        (LevelFilter::Info, Level::Info),
        (LevelFilter::Debug, Level::Debug),
        (LevelFilter::Trace, Level::Trace),
        (LevelFilter::Off, Level::Info),
    ] {
        let mut d = untimed(filter);
        d.append(0, 0, "x");
        assert_eq!(d.flush(), Some((level, String::from("x"))), "{filter:?}");
    }
}

#[test]
fn reset_clears_the_buffer() {
    let mut d = Detailer::new(LevelFilter::Info, TimingSetting::WithTiming);
    d.info("gone");
    assert!(!d.peek().is_empty());
    d.reset();
    assert_eq!(d.peek(), "");
    d.info("kept");
    let (_, text) = split_stamp(d.peek().lines().next().unwrap());
    assert_eq!(text, "kept");
}

#[test]
fn scope_name_is_logged_at_the_threshold_level() {
    let mut d = untimed(LevelFilter::Error);
    {
        let _g = d.scope("failing step");
        d.warn("dropped");
        d.error("kept");
    }
    assert_eq!(d.peek(), "failing step\n  kept\n");
}

#[test]
fn each_level_helper_logs_at_its_level() {
    let mut d = untimed(LevelFilter::Debug);
    d.error("e");
    d.warn("w");
    d.info("i");
    d.debug("d");
    d.trace("t");
    assert_eq!(d.peek(), "e\nw\ni\nd\n");
}

#[test]
fn enabled_matches_the_filter() {
    let d = untimed(LevelFilter::Info);
    assert!(d.enabled(Level::Error));
    assert!(d.enabled(Level::Info));
    assert!(!d.enabled(Level::Debug));
    assert!(!untimed(LevelFilter::Off).enabled(Level::Error));
}

#[test]
fn filter_names_its_level() {
    assert_eq!(LevelFilter::Off.to_level(), None);
    assert_eq!(LevelFilter::Error.to_level(), Some(Level::Error));
    assert_eq!(LevelFilter::Trace.to_level(), Some(Level::Trace));
}

#[test]
fn workflow_trace_end_to_end() {
    let mut d = Detailer::new(LevelFilter::Info, TimingSetting::WithTiming);
    d.log(Level::Info, "start");
    {
        let _g = d.scope("work");
        d.log(Level::Info, "step one");
    }
    d.log(Level::Info, "done");
    let (level, text) = d.flush().expect("one record");
    assert_eq!(level, Level::Info);
    let lines: Vec<&str> = text.lines().collect();
    assert_eq!(lines.len(), 4);
    let texts: Vec<&str> = lines.iter().map(|l| split_stamp(l).1).collect();
    assert_eq!(texts, vec!["start", "work", "  step one", "done"]);
    assert_eq!(d.flush(), None);
}
