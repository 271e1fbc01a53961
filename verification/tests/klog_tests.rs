use kcore::console::{Color, Message, MessageBuilder};
use kcore::klog::{KernelLogger, LoggerLevel, LogIterator};
use kcore::text::Text;
use kcore::time::SystemTime;

fn at(ms: usize) -> SystemTime {
    SystemTime { unix_time: ms, ns_time: 0 }
}

fn msg(body: &str) -> Message {
    MessageBuilder::new().message(&Text::from_str(body)).build()
}

fn section_string(m: &Message, i: usize) -> String {
    String::from_utf8(m.section(i).msg.as_bytes().to_vec()).unwrap()
}

/// The label and body of each yielded message, skipping the
/// timestamp prefix the iterator adds as the first section.
fn drain(mut it: LogIterator) -> Vec<String> {
    let mut out = Vec::new();
    while let Some(m) = it.next() {
        let mut s = String::new();
        for i in 1..m.section_count() {
            s.push_str(&section_string(&m, i));
        }
        out.push(s);
    }
    out
}

#[test]
fn merge_across_levels_is_chronological() {
    // (Fatal,"a")@t1, (Info,"b")@t2, (Fatal,"c")@t3 with t1<t2<t3
    let mut log = KernelLogger::new();
    log.fatal(msg("a"), at(1));
    log.info(msg("b"), at(2));
    log.fatal(msg("c"), at(3));

    let up_to_info = drain(log.iter(LoggerLevel::Info));
    assert_eq!(up_to_info, vec!["Fatal: a", "Info: b", "Fatal: c"]);

    let fatal_only = drain(log.iter(LoggerLevel::Fatal));
    assert_eq!(fatal_only, vec!["Fatal: a", "Fatal: c"]);
}

#[test]
fn every_level_gets_its_label() {
    let mut log = KernelLogger::new();
    log.fatal(msg("f"), at(1));
    log.error(msg("e"), at(2));
    log.warning(msg("w"), at(3));
    log.info(msg("i"), at(4));
    log.debug(msg("d"), at(5));
    log.trace(msg("t"), at(6));

    let all = drain(log.iter(LoggerLevel::Trace));
    assert_eq!(all, vec![
        "Fatal: f", "Error: e", "Warning: w", "Info: i", "Debug: d", "Trace: t",
    ]);
}

#[test]
fn threshold_excludes_less_severe_levels() {
    let mut log = KernelLogger::new();
    log.trace(msg("t"), at(1));
    log.error(msg("e"), at(2));
    log.debug(msg("d"), at(3));
    log.fatal(msg("f"), at(4));

    assert_eq!(drain(log.iter(LoggerLevel::Fatal)), vec!["Fatal: f"]);
    assert_eq!(drain(log.iter(LoggerLevel::Error)), vec!["Error: e", "Fatal: f"]);
    assert_eq!(
        drain(log.iter(LoggerLevel::Trace)),
        vec!["Trace: t", "Error: e", "Debug: d", "Fatal: f"]
    );
}

#[test]
fn records_of_one_level_keep_their_order() {
    let mut log = KernelLogger::new();
    log.info(msg("first"), at(10));
    log.info(msg("second"), at(20));
    log.info(msg("third"), at(30));
    assert_eq!(
        drain(log.iter(LoggerLevel::Info)),
        vec!["Info: first", "Info: second", "Info: third"]
    );
}

#[test]
fn yielded_messages_carry_the_timestamp_prefix() {
    let mut log = KernelLogger::new();
    log.fatal(msg("boom"), at(0));
    let mut it = log.iter(LoggerLevel::Fatal);
    let m = it.next().unwrap();
    assert_eq!(section_string(&m, 0), "[ 1970-1-1 0:0:0.0 ]");
    assert_eq!(section_string(&m, 1), "Fatal: ");
    assert_eq!(section_string(&m, 2), "boom");
    assert!(it.next().is_none());
}

#[test]
fn label_sections_carry_the_level_colors() {
    let mut log = KernelLogger::new();
    log.fatal(msg("x"), at(1));
    log.error(msg("y"), at(2));
    let mut it = log.iter(LoggerLevel::Error);
    let first = it.next().unwrap();
    assert_eq!(first.section(1).fgcolor, Color(0xee, 0x22, 0x22));
    let second = it.next().unwrap();
    assert_eq!(second.section(1).fgcolor, Color(0xee, 0xaa, 0x22));
}

#[test]
fn empty_logger_yields_nothing() {
    let log = KernelLogger::new();
    let mut it = log.iter(LoggerLevel::Trace);
    assert!(it.next().is_none());
    assert!(it.next().is_none());
}

#[test]
fn nanosecond_remainders_break_millisecond_ties() {
    let mut log = KernelLogger::new();
    log.info(msg("late"), SystemTime { unix_time: 5, ns_time: 900 });
    log.fatal(msg("soon"), SystemTime { unix_time: 5, ns_time: 100 });
    assert_eq!(drain(log.iter(LoggerLevel::Info)), vec!["Fatal: soon", "Info: late"]);
}

#[test]
fn records_are_never_reordered_once_stored() {
    // a queue keeps its own order even when stamped out of order
    let mut log = KernelLogger::new();
    log.fatal(msg("x"), at(5));
    log.fatal(msg("y"), at(2));
    assert_eq!(drain(log.iter(LoggerLevel::Fatal)), vec!["Fatal: x", "Fatal: y"]);
}

#[test]
fn equal_timestamps_stay_grouped_by_queue_order() {
    // a tie between levels: the more severe queue was merged first,
    // so its record comes first
    let mut log = KernelLogger::new();
    log.info(msg("i"), at(5));
    log.fatal(msg("f"), at(5));
    assert_eq!(drain(log.iter(LoggerLevel::Info)), vec!["Fatal: f", "Info: i"]);
}
