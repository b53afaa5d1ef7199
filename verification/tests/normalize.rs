use loudness_check::loudnorm::{
    analysis_pass_args, extract_loudnorm_json_field, measured_from_analysis, second_pass_args,
    single_pass_args, single_pass_failure_message, LoudnormConfig, LoudnormError,
};
use loudness_check::paths::default_normalized_path;
use loudness_check::plan::{
    batch_line, done_line, job_line, mode_line, directory_jobs, normalize_step, split_around, split_at_double_dash, InputKind, NormalizeError,
    NormalizeStep,
};
use std::path::{Path, PathBuf};

fn strings(v: &[&str]) -> Vec<String> {
    v.iter().map(|s| s.to_string()).collect()
}

#[test]
fn loudnorm_config_default_and_streaming() {
    let d = LoudnormConfig::default();
    assert_eq!(d.integrated_lufs.parse::<f64>().unwrap(), -16.0);
    assert_eq!(d.true_peak_dbfs.parse::<f64>().unwrap(), -1.5);
    assert_eq!(d.loudness_range.parse::<f64>().unwrap(), 11.0);
    assert_eq!(d.loudnorm_filter(), "loudnorm=I=-16:TP=-1.5:LRA=11");
    let s = LoudnormConfig::streaming();
    assert_eq!(s.integrated_lufs.parse::<f64>().unwrap(), -14.0);
    assert_eq!(s.true_peak_dbfs.parse::<f64>().unwrap(), -1.0);
}

#[test]
fn default_path_with_extension() {
    let p = Path::new("/music/track.wav");
    assert_eq!(
        PathBuf::from(default_normalized_path(p.to_str().unwrap())),
        PathBuf::from("/music/track_normalized.wav")
    );
}

#[test]
fn default_path_no_extension() {
    let p = Path::new("voice");
    assert_eq!(
        PathBuf::from(default_normalized_path(p.to_str().unwrap())),
        PathBuf::from("voice_normalized.wav")
    );
}

#[test]
fn default_path_relative() {
    let p = Path::new("tests/test.flac");
    let got = PathBuf::from(default_normalized_path(p.to_str().unwrap()));
    assert!(got.ends_with("test_normalized.flac"));
}

#[test]
fn extract_json_quoted_values() {
    let stderr = r#"{"input_i": "-18.2", "input_tp": "-2.1", "target_offset": "0.5"}"#;
    assert_eq!(
        extract_loudnorm_json_field(stderr, "input_i").as_deref(),
        Some("-18.2")
    );
    assert_eq!(
        extract_loudnorm_json_field(stderr, "target_offset").as_deref(),
        Some("0.5")
    );
}

#[test]
fn extract_json_numeric_values() {
    let stderr = r#"{"input_i": -18.2, "input_tp": -2.1}"#;
    assert_eq!(
        extract_loudnorm_json_field(stderr, "input_i").as_deref(),
        Some("-18.2")
    );
}

#[test]
fn extract_json_prefers_quoted_form() {
    let stderr = r#"{"input_i": -20.0, "input_i": "-18.2"}"#;
    assert_eq!(
        extract_loudnorm_json_field(stderr, "input_i").as_deref(),
        Some("-18.2")
    );
}

#[test]
fn extract_json_missing_field() {
    let stderr = r#"{"input_i": "-18.2"}"#;
    assert_eq!(extract_loudnorm_json_field(stderr, "input_lra"), None);
    assert_eq!(extract_loudnorm_json_field("", "input_i"), None);
}

#[test]
fn extract_json_invalid_key_pattern() {
    // The key becomes part of a regular expression; one the regex crate refuses gives None.
    assert_eq!(extract_loudnorm_json_field(r#"{"(": "1"}"#, "("), None);
}

#[test]
fn default_path_multiple_dots_and_hidden_files() {
    assert_eq!(
        default_normalized_path("music/archive.tar.gz"),
        "music/archive.tar_normalized.gz"
    );
    assert_eq!(default_normalized_path(".bashrc"), ".bashrc_normalized.wav");
    assert_eq!(default_normalized_path("a/b.MP3"), "a/b_normalized.MP3");
    assert_eq!(default_normalized_path("/"), "./_normalized.wav");
}

#[test]
fn loudnorm_filters_for_two_passes() {
    let c = LoudnormConfig::default();
    assert_eq!(
        c.analysis_filter(),
        "loudnorm=I=-16:TP=-1.5:LRA=11:print_format=json"
    );
    let stderr = r#"{
        "input_i" : "-23.54",
        "input_tp" : "-7.20",
        "input_lra" : "6.10",
        "input_thresh" : "-34.02",
        "target_offset" : "0.25"
    }"#;
    let m = measured_from_analysis(stderr).unwrap();
    assert_eq!(m.input_i, "-23.54");
    assert_eq!(m.target_offset, "0.25");
    assert_eq!(
        c.measured_filter(&m),
        "loudnorm=I=-16:TP=-1.5:LRA=11:measured_i=-23.54:measured_tp=-7.20:measured_lra=6.10:measured_thresh=-34.02:offset=0.25:linear=true"
    );
}

#[test]
fn measured_defaults_and_missing_integrated() {
    let m = measured_from_analysis(r#"{"input_i": -18.0}"#).unwrap();
    assert_eq!(m.input_i, "-18.0");
    assert_eq!(m.input_tp, "");
    assert_eq!(m.input_lra, "");
    assert_eq!(m.input_thresh, "");
    assert_eq!(m.target_offset, "");
    let e = measured_from_analysis(r#"{"input_tp": "-1.0"}"#).unwrap_err();
    assert_eq!(e, LoudnormError::MissingIntegratedLoudness);
    assert_eq!(
        e.message(),
        "loudnorm analysis did not return input_i; check ffmpeg and input file"
    );
    assert_eq!(
        LoudnormError::SecondPassFailed.message(),
        "ffmpeg loudnorm pass 2 failed"
    );
}

#[test]
fn ffmpeg_argument_lists() {
    let c = LoudnormConfig::streaming();
    let a = single_pass_args(&c);
    assert_eq!(a.before_input, strings(&["-y", "-hide_banner", "-loglevel", "error", "-i"]));
    assert_eq!(a.before_extras, strings(&["-af", "loudnorm=I=-14:TP=-1:LRA=11"]));
    assert!(a.before_output.is_empty());
    let (before, after) = analysis_pass_args(&c);
    assert_eq!(before, strings(&["-hide_banner", "-i"]));
    assert_eq!(
        after,
        strings(&["-af", "loudnorm=I=-14:TP=-1:LRA=11:print_format=json", "-f", "null", "-"])
    );
    let m = measured_from_analysis(r#"{"input_i": "-20"}"#).unwrap();
    let b = second_pass_args(&c, &m);
    assert_eq!(b.before_input, strings(&["-hide_banner", "-stats", "-loglevel", "error", "-y", "-i"]));
    assert_eq!(
        b.before_extras,
        strings(&["-af", "loudnorm=I=-14:TP=-1:LRA=11:measured_i=-20:measured_tp=:measured_lra=:measured_thresh=:offset=:linear=true"])
    );
    assert_eq!(b.before_output, strings(&["-c:v", "copy", "-ar", "48000"]));
}

#[test]
fn failure_message_trims_stderr() {
    assert_eq!(
        single_pass_failure_message("\n  Invalid argument \t\n"),
        "ffmpeg loudnorm failed: Invalid argument"
    );
    assert_eq!(single_pass_failure_message("   "), "ffmpeg loudnorm failed: ");
}

#[test]
fn split_at_first_double_dash() {
    let (left, right) = split_at_double_dash(strings(&[
        "normalize", "-i", "a.wav", "--", "-c:a", "flac", "--", "x",
    ]));
    assert_eq!(left, strings(&["normalize", "-i", "a.wav"]));
    assert_eq!(right, strings(&["-c:a", "flac", "--", "x"]));
    let mut restored = left.clone();
    restored.push("--".to_string());
    restored.extend(right.clone());
    assert_eq!(
        restored,
        strings(&["normalize", "-i", "a.wav", "--", "-c:a", "flac", "--", "x"])
    );
    let (left, right) = split_at_double_dash(strings(&["normalize", "-i", "a.wav"]));
    assert_eq!(left, strings(&["normalize", "-i", "a.wav"]));
    assert!(right.is_empty());
    let (left, right) = split_at_double_dash(strings(&["--"]));
    assert!(left.is_empty());
    assert!(right.is_empty());
}

#[test]
fn split_around_position() {
    let (l, r) = split_around(vec![1, 2, 3, 4], Some(1));
    assert_eq!(l, vec![1]);
    assert_eq!(r, vec![3, 4]);
    let (l, r) = split_around(vec![1, 2], None);
    assert_eq!(l, vec![1, 2]);
    assert!(r.is_empty());
}

#[test]
fn normalize_steps_by_input_kind() {
    assert!(matches!(
        normalize_step("x", InputKind::Missing, None),
        NormalizeStep::Stop(NormalizeError::InputNotFound)
    ));
    assert!(matches!(
        normalize_step("dir", InputKind::Directory, Some("o.wav".to_string())),
        NormalizeStep::Stop(NormalizeError::OutputWithDirectory)
    ));
    assert!(matches!(
        normalize_step("dir", InputKind::Directory, None),
        NormalizeStep::ListDirectory
    ));
    assert!(matches!(
        normalize_step("fifo", InputKind::Other, None),
        NormalizeStep::Stop(NormalizeError::NotFileOrDirectory)
    ));
    match normalize_step("tests/test.wav", InputKind::File, None) {
        NormalizeStep::Run(jobs) => {
            assert_eq!(jobs.len(), 1);
            assert_eq!(jobs[0].input, "tests/test.wav");
            assert_eq!(jobs[0].output, "tests/test_normalized.wav");
        }
        other => panic!("unexpected step {:?}", other),
    }
    match normalize_step("tests/test.wav", InputKind::File, Some("out.mp3".to_string())) {
        NormalizeStep::Run(jobs) => assert_eq!(jobs[0].output, "out.mp3"),
        other => panic!("unexpected step {:?}", other),
    }
}

#[test]
fn directory_jobs_beside_sources() {
    assert_eq!(
        directory_jobs(&Vec::new()).unwrap_err(),
        NormalizeError::NoAudioFiles
    );
    let jobs = directory_jobs(&strings(&["d/nested/one.wav", "d/two.FLAC"])).unwrap();
    assert_eq!(jobs.len(), 2);
    assert_eq!(jobs[0].output, "d/nested/one_normalized.wav");
    assert_eq!(jobs[1].input, "d/two.FLAC");
    assert_eq!(jobs[1].output, "d/two_normalized.FLAC");
}

#[test]
fn normalize_error_messages() {
    assert_eq!(
        NormalizeError::InputNotFound.message("a.wav"),
        "normalize: input not found: a.wav"
    );
    assert_eq!(
        NormalizeError::NoAudioFiles.message("dir"),
        "normalize: no supported audio files (m4a, mp3, flac, wav) in dir"
    );
    assert_eq!(
        NormalizeError::NotFileOrDirectory.message("x"),
        "normalize: input must be a file or directory"
    );
    assert!(NormalizeError::OutputWithDirectory
        .message("d")
        .starts_with("normalize: -o/--output cannot be used when -i is a directory"));
}

#[test]
fn normalize_progress_lines() {
    assert_eq!(mode_line(true, "o.wav"), "normalize: single-pass → o.wav");
    assert_eq!(mode_line(false, "o.wav"), "normalize: two-pass → o.wav");
    assert_eq!(batch_line(3, "dir"), "normalize: batch 3 file(s) in dir");
    assert_eq!(job_line("a.wav", "a_normalized.wav"), "normalize: a.wav → a_normalized.wav");
    assert_eq!(done_line(), "normalize: done");
}

#[test]
fn default_output_never_names_its_input() {
    for p in ["tests/test.wav", "voice", "a/b.c.flac", ".hidden", "/x/_normalized.wav", "dir/"] {
        let out = default_normalized_path(p);
        assert_ne!(Path::new(&out), Path::new(p), "{}", p);
    }
}

#[test]
fn extracted_values_are_pieces_of_the_output() {
    let stderr = r#"{"input_i" : "-23.54", "input_tp": -7.2}"#;
    for key in ["input_i", "input_tp"] {
        let v = extract_loudnorm_json_field(stderr, key).unwrap();
        assert!(stderr.contains(&v));
    }
}
