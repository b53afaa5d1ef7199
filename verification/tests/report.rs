use loudness_check::plan::InputKind;
use loudness_check::report::{
    ebur128_args, extract_loudness_info, failure_line, file_row, log_closing_lines,
    log_file_path, log_opening_lines, log_prefix, loudness_row, loudness_step, markdown_row,
    metrics_log_line, outcome_log_lines, processing_line, report_file_path, report_table_divider,
    report_table_header, single_file_inputs, unusable_target_message, verbose_outcome_line,
    LoudnessReport, LoudnessStep,
};
use loudness_check::text::{decimal_text, join_with, trim, zero_padded_decimal};

const SUMMARY: &str = "[Parsed_ebur128_0 @ 0x55] t: 1.2  TPK: -1.5 -1.6 dBFS\n\
[Parsed_ebur128_0 @ 0x55] Summary:\n\
\n\
  Integrated loudness:\n\
    I:         -16.0 LUFS\n\
    Threshold: -26.5 LUFS\n\
\n\
  Loudness range:\n\
    LRA:         2.7 LU\n\
    Threshold: -36.6 LUFS\n\
    LRA low:   -17.8 LUFS\n\
    LRA high:  -15.1 LUFS\n\
\n\
  True peak:\n\
    Peak:       -3.4 dBFS\n\
    Peak:       -1.2 dBFS\n";

#[test]
fn loudness_summary_metrics() {
    let info = extract_loudness_info(SUMMARY).unwrap();
    assert_eq!(
        info,
        vec!["-16.0", "2.7", "-1.2", "-26.5", "-36.6", "-17.8", "-15.1"]
    );
}

#[test]
fn loudness_summary_missing_values() {
    let info = extract_loudness_info("no summary here\n    Threshold: -20.0 LUFS\n").unwrap();
    assert_eq!(
        info,
        vec!["N/A", "N/A", "N/A", "-20.0", "N/A", "N/A", "N/A"]
    );
    // Integer values do not match the `-?\d+\.\d+` form.
    let info = extract_loudness_info("    I: -16 LUFS\n").unwrap();
    assert_eq!(info[0], "N/A");
}

#[test]
fn loudness_row_has_file_name_and_metrics() {
    let row = loudness_row("/music/album/song.wav", SUMMARY).unwrap();
    assert_eq!(row.len(), 8);
    assert_eq!(row[0], "song.wav");
    assert_eq!(row[3], "-1.2");
    assert_eq!(file_row("/", SUMMARY), None);
    assert_eq!(file_row("/music/album/song.wav", SUMMARY), Some(row.clone()));
    assert_eq!(
        metrics_log_line(&row),
        "I: -16.0 | LRA: 2.7 | TP: -1.2 | Threshold (I): -26.5 | Threshold (LRA): -36.6 | LRA low: -17.8 | LRA high: -15.1"
    );
    assert_eq!(
        markdown_row(&row),
        "| song.wav | -16.0 | 2.7 | -1.2 | -26.5 | -36.6 | -17.8 | -15.1 |"
    );
}

#[test]
fn single_file_selection() {
    assert_eq!(single_file_inputs("a/b.WAV"), vec!["a/b.WAV".to_string()]);
    assert!(single_file_inputs("a/b.ogg").is_empty());
    assert!(single_file_inputs("a/b").is_empty());
}

#[test]
fn report_counts_each_file_once() {
    let mut r = LoudnessReport::new();
    assert_eq!(r.summary_line(), "summary: 0 ok, 0 failed");
    r.record_success(vec!["a.wav".to_string(), "x".to_string()]);
    r.record_failure();
    r.record_success(vec!["b.wav".to_string()]);
    assert_eq!(r.ok_count(), 2);
    assert_eq!(r.fail_count(), 1);
    assert_eq!(r.summary_line(), "summary: 2 ok, 1 failed");
    assert_eq!(r.row_lines(), vec!["| a.wav | x |".to_string(), "| b.wav |".to_string()]);
}

#[test]
fn log_names_and_lines() {
    let prefix = log_prefix("2024_01_02_03_04_05", 7);
    assert_eq!(prefix, "2024_01_02_03_04_05_007");
    assert_eq!(log_prefix("t", 1234), "t_1234");
    assert_eq!(log_file_path(&prefix), "LOGS/2024_01_02_03_04_05_007.log");
    assert_eq!(
        report_file_path(&prefix),
        "LOGS/2024_01_02_03_04_05_007_loudness_report.md"
    );
    let opening = log_opening_lines("2024-01-02 03:04:05.007 +0000", "tests/", 2);
    assert_eq!(opening[0], "loudness");
    assert_eq!(opening[2], "target: tests/");
    assert_eq!(opening[3], "file_count: 2");
    assert_eq!(opening[5], report_table_header());
    assert!(report_table_header().contains("TP (dBFS)"));
    assert_eq!(opening[6], report_table_divider());
    let err: Result<Vec<String>, String> = Err("boom".to_string());
    assert_eq!(outcome_log_lines(&err), vec!["  status: ERROR", "  boom"]);
    let mut r = LoudnessReport::new();
    r.record_failure();
    let closing = log_closing_lines("later", &r, "LOGS/x.md");
    assert_eq!(closing, vec!["---", "finished: later", "summary: 0 ok, 1 failed", "report: LOGS/x.md"]);
}

#[test]
fn text_helpers() {
    assert_eq!(decimal_text(0), "0");
    assert_eq!(decimal_text(18446744073709551615), "18446744073709551615");
    assert_eq!(zero_padded_decimal(42, 3), "042");
    assert_eq!(zero_padded_decimal(42, 0), "42");
    assert_eq!(join_with(&vec![], ", "), "");
    assert_eq!(join_with(&vec!["a".to_string(), "b".to_string()], ", "), "a, b");
    assert_eq!(trim("\u{3000} x y\u{85}"), "x y");
}

#[test]
fn ebur128_arguments() {
    assert_eq!(
        ebur128_args("tests/test.wav"),
        vec!["-i", "tests/test.wav", "-filter_complex", "ebur128=framelog=quiet:peak=true", "-f", "null", "-"]
    );
}

#[test]
fn loudness_steps_and_console_lines() {
    match loudness_step("a/b.mp3", InputKind::File) {
        LoudnessStep::Analyze(files) => assert_eq!(files, vec!["a/b.mp3".to_string()]),
        other => panic!("unexpected step {:?}", other),
    }
    match loudness_step("a/b.txt", InputKind::File) {
        LoudnessStep::Analyze(files) => assert!(files.is_empty()),
        other => panic!("unexpected step {:?}", other),
    }
    assert!(matches!(loudness_step("d", InputKind::Directory), LoudnessStep::ListDirectory));
    assert!(matches!(loudness_step("x", InputKind::Missing), LoudnessStep::Stop));
    assert!(matches!(loudness_step("x", InputKind::Other), LoudnessStep::Stop));
    assert_eq!(
        unusable_target_message(),
        "Input must be an audio file (m4a, mp3, flac, wav) or a folder containing such files."
    );
    assert_eq!(processing_line("a.wav"), "Processing: a.wav");
    assert_eq!(failure_line("a.wav", "no such file"), "Failed to process a.wav: no such file");
    let err: Result<Vec<String>, String> = Err("boom".to_string());
    assert_eq!(verbose_outcome_line("a.wav", &err), "Failed to process a.wav: boom");
    let row = loudness_row("a.wav", SUMMARY).unwrap();
    let ok: Result<Vec<String>, String> = Ok(row);
    assert!(verbose_outcome_line("a.wav", &ok).starts_with("I: -16.0 | LRA: 2.7"));
}

#[test]
fn summary_metrics_are_pieces_of_the_output() {
    let info = extract_loudness_info(SUMMARY).unwrap();
    assert_eq!(info.len(), 7);
    for v in &info {
        assert!(v == "N/A" || SUMMARY.contains(v.as_str()));
    }
}
