//! EBU R128 loudness reports: reading the summary that FFmpeg's `ebur128`
//! filter prints, and the rows, Markdown table and log of a run.
use vstd::prelude::*;
use crate::paths::{file_name_of, has_file_name, has_supported_audio_extension, is_audio_path, path_file_name};
use crate::plan::InputKind;
use crate::pattern::{
    compile,
    first_group1,
    group1_per_match,
    regex_accepts,
    regex_first_group1,
    regex_group1_per_match,
    is_substring,
    Pattern,
};
use crate::loudnorm::group_text;
use crate::text::{push_string, decimal, decimal_text, joined, join_with, push_text, views, zero_padded, zero_padded_decimal};

verus! {

broadcast use vstd::string::group_string_axioms;

/// `I:` line of the summary (integrated loudness).
pub open spec fn integrated_pattern() -> Seq<char> {
    "(?m)^\\s*I:\\s*(-?\\d+\\.\\d+) LUFS"@
}

/// `LRA:` line of the summary (loudness range).
pub open spec fn range_pattern() -> Seq<char> {
    "(?m)^\\s*LRA:\\s*(-?\\d+\\.\\d+) LU"@
}

/// `Peak:` lines of the summary (true peak).
pub open spec fn peak_pattern() -> Seq<char> {
    "(?m)^\\s*Peak:\\s*(-?\\d+\\.\\d+) dBFS"@
}

/// `Threshold:` lines of the summary (first for I, second for LRA).
pub open spec fn threshold_pattern() -> Seq<char> {
    "(?m)^\\s*Threshold:\\s*(-?\\d+\\.\\d+) LUFS"@
}

/// `LRA low:` line of the summary.
pub open spec fn range_low_pattern() -> Seq<char> {
    "(?m)^\\s*LRA low:\\s*(-?\\d+\\.\\d+) LUFS"@
}

/// `LRA high:` line of the summary.
pub open spec fn range_high_pattern() -> Seq<char> {
    "(?m)^\\s*LRA high:\\s*(-?\\d+\\.\\d+) LUFS"@
}

/// The regex crate accepts every summary pattern.
pub open spec fn summary_patterns_accepted() -> bool {
    &&& regex_accepts(integrated_pattern())
    &&& regex_accepts(range_pattern())
    &&& regex_accepts(peak_pattern())
    &&& regex_accepts(threshold_pattern())
    &&& regex_accepts(range_low_pattern())
    &&& regex_accepts(range_high_pattern())
}

/// The captured value, or `N/A` when there is none.
pub open spec fn metric_text(found: Option<Option<Seq<char>>>) -> Seq<char> {
    match group_text(found) {
        Some(t) => t,
        None => "N/A"@,
    }
}

/// The value captured by the first match of `pattern` in `out`, or `N/A`.
pub open spec fn first_metric(pattern: Seq<char>, out: Seq<char>) -> Seq<char> {
    metric_text(regex_first_group1(pattern, out))
}

/// The value captured by the `k`-th match (from 0) of `pattern` in `out`, or `N/A`.
pub open spec fn nth_metric(pattern: Seq<char>, out: Seq<char>, k: int) -> Seq<char> {
    let all = regex_group1_per_match(pattern, out);
    if 0 <= k < all.len() {
        metric_text(Some(all[k]))
    } else {
        "N/A"@
    }
}

/// The value captured by the last match of `pattern` in `out`, or `N/A`.
pub open spec fn last_metric(pattern: Seq<char>, out: Seq<char>) -> Seq<char> {
    let all = regex_group1_per_match(pattern, out);
    if all.len() > 0 {
        metric_text(Some(all.last()))
    } else {
        "N/A"@
    }
}

/// The seven metrics of a report row, in column order: I, LRA, TP (the last
/// `Peak:`), Threshold (I) (the first `Threshold:`), Threshold (LRA) (the
/// second `Threshold:`), LRA low, LRA high.
pub open spec fn loudness_metrics(out: Seq<char>) -> Seq<Seq<char>> {
    seq![
        first_metric(integrated_pattern(), out),
        first_metric(range_pattern(), out),
        last_metric(peak_pattern(), out),
        nth_metric(threshold_pattern(), out, 0),
        nth_metric(threshold_pattern(), out, 1),
        first_metric(range_low_pattern(), out),
        first_metric(range_high_pattern(), out),
    ]
}

/// The seven metrics, column by column, from what the regex crate finds: I,
/// LRA, LRA low and LRA high are group 1 of the first match of their pattern;
/// TP is group 1 of the last `Peak:` match, whenever there is at least one;
/// Threshold (I) and Threshold (LRA) are group 1 of the first and second
/// `Threshold:` matches. A column is `N/A` exactly when its match (or group)
/// is missing.
pub proof fn lemma_metric_columns(out: Seq<char>)
    ensures
        loudness_metrics(out).len() == 7,
        ({
            let m = loudness_metrics(out);
            let peaks = regex_group1_per_match(peak_pattern(), out);
            let thresholds = regex_group1_per_match(threshold_pattern(), out);
            &&& (regex_first_group1(integrated_pattern(), out) matches Some(Some(t)) ==> m[0] == t)
            &&& (!(regex_first_group1(integrated_pattern(), out) matches Some(Some(_))) ==> m[0]
                == "N/A"@)
            &&& (regex_first_group1(range_pattern(), out) matches Some(Some(t)) ==> m[1] == t)
            &&& (!(regex_first_group1(range_pattern(), out) matches Some(Some(_))) ==> m[1]
                == "N/A"@)
            &&& (peaks.len() >= 1 ==> (peaks[peaks.len() - 1] matches Some(t) ==> m[2] == t))
            &&& (peaks.len() == 0 || peaks[peaks.len() - 1] is None ==> m[2] == "N/A"@)
            &&& (thresholds.len() >= 1 ==> (thresholds[0] matches Some(t) ==> m[3] == t))
            &&& (thresholds.len() == 0 || thresholds[0] is None ==> m[3] == "N/A"@)
            &&& (thresholds.len() >= 2 ==> (thresholds[1] matches Some(t) ==> m[4] == t))
            &&& (thresholds.len() < 2 || thresholds[1] is None ==> m[4] == "N/A"@)
            &&& (regex_first_group1(range_low_pattern(), out) matches Some(Some(t)) ==> m[5] == t)
            &&& (!(regex_first_group1(range_low_pattern(), out) matches Some(Some(_))) ==> m[5]
                == "N/A"@)
            &&& (regex_first_group1(range_high_pattern(), out) matches Some(Some(t)) ==> m[6]
                == t)
            &&& (!(regex_first_group1(range_high_pattern(), out) matches Some(Some(_))) ==> m[6]
                == "N/A"@)
        }),
{
}

/// A summary with a single `Peak:` line still reports its value as TP.
pub proof fn lemma_single_peak_reported(out: Seq<char>, t: Seq<char>)
    requires
        regex_group1_per_match(peak_pattern(), out) == seq![Some(t)],
    ensures
        loudness_metrics(out)[2] == t,
{
    lemma_metric_columns(out);
}

fn compiled(source: &str) -> (r: Option<Pattern>)
    ensures
        r is Some <==> regex_accepts(source@),
        r matches Some(p) ==> p.source() == source@,
{
    compile(source)
}

fn first_value(p: &Pattern, out: &str) -> (r: String)
    ensures
        r@ == first_metric(p.source(), out@),
        r@ == "N/A"@ || is_substring(r@, out@),
{
    match first_group1(p, out) {
        Some(Some(t)) => t,
        _ => String::from_str("N/A"),
    }
}

/// Parses FFmpeg `ebur128` summary lines from stderr into metric strings (or
/// `"N/A"`). `None` only when the regex crate refuses one of the patterns.
pub fn extract_loudness_info(ffmpeg_output: &str) -> (r: Option<Vec<String>>)
    ensures
        r is Some <==> summary_patterns_accepted(),
        r matches Some(v) ==> views(v@) == loudness_metrics(ffmpeg_output@),
        r matches Some(v) ==> forall|k: int|
            0 <= k < v@.len() ==> (#[trigger] v@[k])@ == "N/A"@ || is_substring(
                v@[k]@,
                ffmpeg_output@,
            ),
{
    let re_i = match compiled("(?m)^\\s*I:\\s*(-?\\d+\\.\\d+) LUFS") {
        Some(p) => p,
        None => return None,
    };
    let re_lra = match compiled("(?m)^\\s*LRA:\\s*(-?\\d+\\.\\d+) LU") {
        Some(p) => p,
        None => return None,
    };
    let re_tp = match compiled("(?m)^\\s*Peak:\\s*(-?\\d+\\.\\d+) dBFS") {
        Some(p) => p,
        None => return None,
    };
    let re_threshold = match compiled("(?m)^\\s*Threshold:\\s*(-?\\d+\\.\\d+) LUFS") {
        Some(p) => p,
        None => return None,
    };
    let re_lra_low = match compiled("(?m)^\\s*LRA low:\\s*(-?\\d+\\.\\d+) LUFS") {
        Some(p) => p,
        None => return None,
    };
    let re_lra_high = match compiled("(?m)^\\s*LRA high:\\s*(-?\\d+\\.\\d+) LUFS") {
        Some(p) => p,
        None => return None,
    };
    let mut matches: Vec<String> = Vec::new();
    matches.push(first_value(&re_i, ffmpeg_output));
    matches.push(first_value(&re_lra, ffmpeg_output));
    let peaks = group1_per_match(&re_tp, ffmpeg_output);
    let tp = if peaks.len() > 0 {
        match &peaks[peaks.len() - 1] {
            Some(t) => t.clone(),
            None => String::from_str("N/A"),
        }
    } else {
        String::from_str("N/A")
    };
    matches.push(tp);
    let thresholds = group1_per_match(&re_threshold, ffmpeg_output);
    let threshold_i = if thresholds.len() > 0 {
        match &thresholds[0] {
            Some(t) => t.clone(),
            None => String::from_str("N/A"),
        }
    } else {
        String::from_str("N/A")
    };
    matches.push(threshold_i);
    let threshold_lra = if thresholds.len() > 1 {
        match &thresholds[1] {
            Some(t) => t.clone(),
            None => String::from_str("N/A"),
        }
    } else {
        String::from_str("N/A")
    };
    matches.push(threshold_lra);
    matches.push(first_value(&re_lra_low, ffmpeg_output));
    matches.push(first_value(&re_lra_high, ffmpeg_output));
    assert(views(matches@) =~= loudness_metrics(ffmpeg_output@));
    Some(matches)
}


/// One report row for the file at `filepath` whose analysis printed
/// `ffmpeg_output`: the file name, then the seven metrics. The path must have a
/// file name. `None` only when the regex crate refuses one of the patterns.
pub fn loudness_row(filepath: &str, ffmpeg_output: &str) -> (r: Option<Vec<String>>)
    requires
        path_file_name(filepath@) is Some,
    ensures
        r is Some <==> summary_patterns_accepted(),
        r matches Some(row) ==> views(row@) == seq![path_file_name(filepath@).unwrap()]
            + loudness_metrics(ffmpeg_output@),
{
    let info = match extract_loudness_info(ffmpeg_output) {
        Some(v) => v,
        None => return None,
    };
    let name = match file_name_of(filepath) {
        Some(n) => n,
        None => return None,
    };
    let mut row: Vec<String> = Vec::new();
    push_string(&mut row, name);
    assert(views(info@).take(0) =~= Seq::<Seq<char>>::empty());
    assert(views(info@).len() == info@.len());
    let mut i: usize = 0;
    while i < info.len()
        invariant
            path_file_name(filepath@) is Some,
            i <= info@.len(),
            info@.len() == 7,
            views(info@) == loudness_metrics(ffmpeg_output@),
            views(row@) == seq![path_file_name(filepath@).unwrap()] + views(info@).take(i as int),
        decreases info@.len() - i,
    {
        push_string(&mut row, info[i].clone());
        assert(views(info@).take(i + 1) =~= views(info@).take(i as int).push(info@[i as int]@));
        assert(views(row@) =~= seq![path_file_name(filepath@).unwrap()] + views(info@).take(
            i + 1,
        ));
        i = i + 1;
    }
    assert(views(info@).take(7) =~= views(info@));
    Some(row)
}

/// The report row of `filepath` when it has a file name (see `loudness_row`),
/// else `None`.
pub fn file_row(filepath: &str, ffmpeg_output: &str) -> (r: Option<Vec<String>>)
    ensures
        r is Some <==> (summary_patterns_accepted() && path_file_name(filepath@) is Some),
        r matches Some(row) ==> views(row@) == seq![path_file_name(filepath@).unwrap()]
            + loudness_metrics(ffmpeg_output@),
{
    if has_file_name(filepath) {
        loudness_row(filepath, ffmpeg_output)
    } else {
        None
    }
}

/// FFmpeg arguments that print the EBU R128 summary of the file at `filepath`:
/// `-i <filepath> -filter_complex ebur128=framelog=quiet:peak=true -f null -`.
pub fn ebur128_args(filepath: &str) -> (r: Vec<String>)
    ensures
        views(r@) == seq![
            "-i"@,
            filepath@,
            "-filter_complex"@,
            "ebur128=framelog=quiet:peak=true"@,
            "-f"@,
            "null"@,
            "-"@,
        ],
{
    let mut v: Vec<String> = Vec::new();
    push_text(&mut v, "-i");
    push_text(&mut v, filepath);
    push_text(&mut v, "-filter_complex");
    push_text(&mut v, "ebur128=framelog=quiet:peak=true");
    push_text(&mut v, "-f");
    push_text(&mut v, "null");
    push_text(&mut v, "-");
    assert(views(v@) =~= seq![
        "-i"@,
        filepath@,
        "-filter_complex"@,
        "ebur128=framelog=quiet:peak=true"@,
        "-f"@,
        "null"@,
        "-"@,
    ]);
    v
}

/// The next step of `loudness` once its target path has been examined.
#[derive(Debug)]
pub enum LoudnessStep {
    /// Analyze these files.
    Analyze(Vec<String>),
    /// List the files under the target directory, then call `sorted_audio_files`.
    ListDirectory,
    /// The target is neither a file nor a directory: stop with
    /// `unusable_target_message`.
    Stop,
}

/// Decides what `loudness` does with the target `target` of kind `kind`.
pub fn loudness_step(target: &str, kind: InputKind) -> (r: LoudnessStep)
    ensures
        kind == InputKind::File ==> (r matches LoudnessStep::Analyze(files) && views(files@) == if is_audio_path(target@) {
            seq![target@]
        } else {
            Seq::<Seq<char>>::empty()
        }),
        kind == InputKind::Directory ==> r == LoudnessStep::ListDirectory,
        (kind == InputKind::Missing || kind == InputKind::Other) ==> r == LoudnessStep::Stop,
{
    match kind {
        InputKind::File => LoudnessStep::Analyze(single_file_inputs(target)),
        InputKind::Directory => LoudnessStep::ListDirectory,
        _ => LoudnessStep::Stop,
    }
}

/// The message printed when the target is neither a file nor a directory.
pub fn unusable_target_message() -> (r: String)
    ensures
        r@ == "Input must be an audio file (m4a, mp3, flac, wav) or a folder containing such files."@,
{
    String::from_str(
        "Input must be an audio file (m4a, mp3, flac, wav) or a folder containing such files.",
    )
}

/// `Processing: <file>`, logged (and, when verbose, printed) before each file.
pub fn processing_line(file: &str) -> (r: String)
    ensures
        r@ == "Processing: "@ + file@,
{
    let mut s = String::from_str("Processing: ");
    s.append(file);
    s
}

/// `Failed to process <file>: <error>`, reported for a file that failed.
pub fn failure_line(file: &str, error: &str) -> (r: String)
    ensures
        r@ == "Failed to process "@ + file@ + ": "@ + error@,
{
    let mut s = String::from_str("Failed to process ");
    s.append(file);
    s.append(": ");
    s.append(error);
    s
}

/// The line printed in verbose mode for one file's outcome: its metrics, or
/// its failure.
pub fn verbose_outcome_line(file: &str, outcome: &Result<Vec<String>, String>) -> (r: String)
    requires
        outcome matches Ok(row) ==> row@.len() >= 8,
    ensures
        r@ == match outcome {
            Ok(row) => metrics_line(views(row@)),
            Err(e) => "Failed to process "@ + file@ + ": "@ + e@,
        },
{
    match outcome {
        Ok(row) => metrics_log_line(row),
        Err(e) => failure_line(file, e.as_str()),
    }
}

/// The inputs of a run on a single file: the file itself when its extension
/// is a supported audio extension, else nothing.
pub fn single_file_inputs(target: &str) -> (r: Vec<String>)
    ensures
        views(r@) == if is_audio_path(target@) {
            seq![target@]
        } else {
            Seq::<Seq<char>>::empty()
        },
{
    let mut files: Vec<String> = Vec::new();
    if has_supported_audio_extension(target) {
        push_text(&mut files, target);
    }
    assert(views(files@) =~= if is_audio_path(target@) {
        seq![target@]
    } else {
        Seq::<Seq<char>>::empty()
    });
    files
}

/// Header line of the Markdown report table.
pub open spec fn table_header() -> Seq<char> {
    "| Song Name | I (LUFS) | LRA (LU) | TP (dBFS) | Threshold (I) | Threshold (LRA) | LRA low | LRA high |"@
}

/// Divider line under the header of the Markdown report table.
pub open spec fn table_divider() -> Seq<char> {
    "|-----------|----------|----------|-----------|---------------|-----------------|---------|----------|"@
}

/// The header line of the report table.
pub fn report_table_header() -> (r: String)
    ensures
        r@ == table_header(),
{
    String::from_str(
        "| Song Name | I (LUFS) | LRA (LU) | TP (dBFS) | Threshold (I) | Threshold (LRA) | LRA low | LRA high |",
    )
}

/// The divider line of the report table.
pub fn report_table_divider() -> (r: String)
    ensures
        r@ == table_divider(),
{
    String::from_str(
        "|-----------|----------|----------|-----------|---------------|-----------------|---------|----------|",
    )
}

/// A Markdown table line holding `cells`: `| c0 | c1 | ... |`.
pub open spec fn table_line(cells: Seq<Seq<char>>) -> Seq<char> {
    "| "@ + joined(cells, " | "@) + " |"@
}

/// The Markdown table line of a report row.
pub fn markdown_row(row: &Vec<String>) -> (r: String)
    ensures
        r@ == table_line(views(row@)),
{
    let mut s = String::from_str("| ");
    let cells = join_with(row, " | ");
    s.append(cells.as_str());
    s.append(" |");
    s
}

/// The log line of a report row's metrics.
pub open spec fn metrics_line(row: Seq<Seq<char>>) -> Seq<char> {
    "I: "@ + row[1] + " | LRA: "@ + row[2] + " | TP: "@ + row[3] + " | Threshold (I): "@ + row[4]
        + " | Threshold (LRA): "@ + row[5] + " | LRA low: "@ + row[6] + " | LRA high: "@ + row[7]
}

/// The log line of a report row's metrics (the row's cells after the file name).
pub fn metrics_log_line(row: &Vec<String>) -> (r: String)
    requires
        row@.len() >= 8,
    ensures
        r@ == metrics_line(views(row@)),
{
    let mut s = String::from_str("I: ");
    s.append(row[1].as_str());
    s.append(" | LRA: ");
    s.append(row[2].as_str());
    s.append(" | TP: ");
    s.append(row[3].as_str());
    s.append(" | Threshold (I): ");
    s.append(row[4].as_str());
    s.append(" | Threshold (LRA): ");
    s.append(row[5].as_str());
    s.append(" | LRA low: ");
    s.append(row[6].as_str());
    s.append(" | LRA high: ");
    s.append(row[7].as_str());
    s
}

/// The abstract state of a report: the rows of the files analyzed, and how
/// many files failed.
pub struct ReportView {
    pub rows: Seq<Seq<Seq<char>>>,
    pub failures: nat,
}

/// The report after one more file: its row when it was analyzed, else one more
/// failure.
pub open spec fn after_outcome(r: ReportView, outcome: Option<Seq<Seq<char>>>) -> ReportView {
    match outcome {
        Some(row) => ReportView { rows: r.rows.push(row), failures: r.failures },
        None => ReportView { rows: r.rows, failures: r.failures + 1 },
    }
}

/// The report after the files with `outcomes`, in order, starting empty.
pub open spec fn report_after(outcomes: Seq<Option<Seq<Seq<char>>>>) -> ReportView
    decreases outcomes.len(),
{
    if outcomes.len() == 0 {
        ReportView { rows: Seq::empty(), failures: 0 }
    } else {
        after_outcome(report_after(outcomes.drop_last()), outcomes.last())
    }
}

/// The rows of the analyzed files among `outcomes`, in order.
pub open spec fn successes(outcomes: Seq<Option<Seq<Seq<char>>>>) -> Seq<Seq<Seq<char>>>
    decreases outcomes.len(),
{
    if outcomes.len() == 0 {
        Seq::empty()
    } else {
        match outcomes.last() {
            Some(row) => successes(outcomes.drop_last()).push(row),
            None => successes(outcomes.drop_last()),
        }
    }
}

/// Every file of a run is counted once: after any sequence of outcomes, the
/// report holds exactly the rows of the analyzed files, in order, and the
/// numbers of rows and of failures add up to the number of files.
pub proof fn lemma_report_counts_every_file(outcomes: Seq<Option<Seq<Seq<char>>>>)
    ensures
        report_after(outcomes).rows == successes(outcomes),
        report_after(outcomes).rows.len() + report_after(outcomes).failures == outcomes.len(),
    decreases outcomes.len(),
{
    if outcomes.len() > 0 {
        lemma_report_counts_every_file(outcomes.drop_last());
    }
}

/// The rows and counters of a `loudness` run.
pub struct LoudnessReport {
    rows: Vec<Vec<String>>,
    fail_count: u32,
}

impl View for LoudnessReport {
    type V = ReportView;

    closed spec fn view(&self) -> ReportView {
        ReportView { rows: self.rows@.map_values(|row: Vec<String>| views(row@)), failures: self.fail_count as nat }
    }
}

impl LoudnessReport {
    /// A report of no file.
    pub fn new() -> (r: Self)
        ensures
            r@ == report_after(Seq::empty()),
    {
        let r = LoudnessReport { rows: Vec::new(), fail_count: 0 };
        assert(r@.rows =~= Seq::<Seq<Seq<char>>>::empty());
        r
    }

    /// Records a file that was analyzed, with its row.
    pub fn record_success(&mut self, row: Vec<String>)
        ensures
            final(self)@ == after_outcome(old(self)@, Some(views(row@))),
    {
        let ghost r = views(row@);
        self.rows.push(row);
        assert(self@.rows =~= old(self)@.rows.push(r));
    }

    /// Records a file that could not be analyzed.
    pub fn record_failure(&mut self)
        requires
            old(self)@.failures < u32::MAX,
        ensures
            final(self)@ == after_outcome(old(self)@, None),
    {
        self.fail_count = self.fail_count + 1;
        assert(self@.rows =~= old(self)@.rows);
    }

    /// Number of files analyzed.
    pub fn ok_count(&self) -> (r: usize)
        ensures
            r == self@.rows.len(),
    {
        self.rows.len()
    }

    /// Number of files that failed.
    pub fn fail_count(&self) -> (r: u32)
        ensures
            r == self@.failures,
    {
        self.fail_count
    }

    /// The Markdown lines of the rows, in order.
    pub fn row_lines(&self) -> (r: Vec<String>)
        ensures
            r@.len() == self@.rows.len(),
            forall|k: int| 0 <= k < r@.len() ==> (#[trigger] r@[k])@ == table_line(self@.rows[k]),
    {
        let mut out: Vec<String> = Vec::new();
        let n = self.rows.len();
        let mut i: usize = 0;
        while i < n
            invariant
                i <= n,
                n == self.rows@.len(),
                out@.len() == i,
                forall|k: int| 0 <= k < i ==> (#[trigger] out@[k])@ == table_line(self@.rows[k]),
            decreases n - i,
        {
            let line = markdown_row(&self.rows[i]);
            out.push(line);
            i = i + 1;
        }
        out
    }

    /// `summary: <ok> ok, <failed> failed`.
    pub fn summary_line(&self) -> (r: String)
        ensures
            r@ == "summary: "@ + decimal(self@.rows.len()) + " ok, "@ + decimal(self@.failures)
                + " failed"@,
    {
        let mut s = String::from_str("summary: ");
        let ok = decimal_text(self.rows.len() as u64);
        s.append(ok.as_str());
        s.append(" ok, ");
        let failed = decimal_text(self.fail_count as u64);
        s.append(failed.as_str());
        s.append(" failed");
        s
    }
}

/// Name prefix of a run's log files: the start time as formatted by the
/// caller, `_`, and the milliseconds padded to three digits.
pub fn log_prefix(started: &str, millis: u32) -> (r: String)
    ensures
        r@ == started@ + "_"@ + zero_padded(decimal(millis as nat), 3),
{
    let mut s = String::from_str(started);
    s.append("_");
    let ms = zero_padded_decimal(millis as u64, 3);
    s.append(ms.as_str());
    s
}

/// `LOGS/<prefix>.log`.
pub fn log_file_path(prefix: &str) -> (r: String)
    ensures
        r@ == "LOGS/"@ + prefix@ + ".log"@,
{
    let mut s = String::from_str("LOGS/");
    s.append(prefix);
    s.append(".log");
    s
}

/// `LOGS/<prefix>_loudness_report.md`.
pub fn report_file_path(prefix: &str) -> (r: String)
    ensures
        r@ == "LOGS/"@ + prefix@ + "_loudness_report.md"@,
{
    let mut s = String::from_str("LOGS/");
    s.append(prefix);
    s.append("_loudness_report.md");
    s
}

/// The lines that open a run's log: the tool name, start time, target and
/// number of files, a separator, then the table header and divider.
pub fn log_opening_lines(started: &str, target: &str, file_count: usize) -> (r: Vec<String>)
    ensures
        views(r@) == seq![
            "loudness"@,
            "started: "@ + started@,
            "target: "@ + target@,
            "file_count: "@ + decimal(file_count as nat),
            "---"@,
            table_header(),
            table_divider(),
        ],
{
    let mut v: Vec<String> = Vec::new();
    push_text(&mut v, "loudness");
    let mut s = String::from_str("started: ");
    s.append(started);
    push_string(&mut v, s);
    let mut t = String::from_str("target: ");
    t.append(target);
    push_string(&mut v, t);
    let mut c = String::from_str("file_count: ");
    let n = decimal_text(file_count as u64);
    c.append(n.as_str());
    push_string(&mut v, c);
    push_text(&mut v, "---");
    push_string(&mut v, report_table_header());
    push_string(&mut v, report_table_divider());
    assert(views(v@) =~= seq![
        "loudness"@,
        "started: "@ + started@,
        "target: "@ + target@,
        "file_count: "@ + decimal(file_count as nat),
        "---"@,
        table_header(),
        table_divider(),
    ]);
    v
}

/// The log lines of one file's outcome: `  status: OK` and its metrics, or
/// `  status: ERROR` and the error.
pub fn outcome_log_lines(outcome: &Result<Vec<String>, String>) -> (r: Vec<String>)
    requires
        outcome matches Ok(row) ==> row@.len() >= 8,
    ensures
        views(r@) == match outcome {
            Ok(row) => seq!["  status: OK"@, "  "@ + metrics_line(views(row@))],
            Err(e) => seq!["  status: ERROR"@, "  "@ + e@],
        },
{
    let mut v: Vec<String> = Vec::new();
    match outcome {
        Ok(row) => {
            push_text(&mut v, "  status: OK");
            let mut s = String::from_str("  ");
            let line = metrics_log_line(row);
            s.append(line.as_str());
            push_string(&mut v, s);
            assert(views(v@) =~= seq!["  status: OK"@, "  "@ + metrics_line(views(row@))]);
        },
        Err(e) => {
            push_text(&mut v, "  status: ERROR");
            let mut s = String::from_str("  ");
            s.append(e.as_str());
            push_string(&mut v, s);
            assert(views(v@) =~= seq!["  status: ERROR"@, "  "@ + e@]);
        },
    }
    v
}

/// The lines that close a run's log: a separator, the finish time, the
/// summary, and the report's path.
pub fn log_closing_lines(finished: &str, report: &LoudnessReport, report_path: &str) -> (r: Vec<
    String,
>)
    ensures
        views(r@) == seq![
            "---"@,
            "finished: "@ + finished@,
            "summary: "@ + decimal(report@.rows.len()) + " ok, "@ + decimal(report@.failures)
                + " failed"@,
            "report: "@ + report_path@,
        ],
{
    let mut v: Vec<String> = Vec::new();
    push_text(&mut v, "---");
    let mut s = String::from_str("finished: ");
    s.append(finished);
    push_string(&mut v, s);
    push_string(&mut v, report.summary_line());
    let mut t = String::from_str("report: ");
    t.append(report_path);
    push_string(&mut v, t);
    assert(views(v@) =~= seq![
        "---"@,
        "finished: "@ + finished@,
        "summary: "@ + decimal(report@.rows.len()) + " ok, "@ + decimal(report@.failures)
            + " failed"@,
        "report: "@ + report_path@,
    ]);
    v
}

} // verus!
