//! Loudness normalization with FFmpeg's `loudnorm` filter: filter strings, the
//! FFmpeg argument lists of single-pass and two-pass runs, and reading the
//! measurements that the analysis pass prints.
use vstd::prelude::*;
use crate::pattern::{compile, first_group1, is_substring, regex_accepts, regex_first_group1};
use crate::text::{opt_view, push_string, push_text, trim, trimmed, views};

verus! {

broadcast use vstd::string::group_string_axioms;

/// Target loudness for a `loudnorm` run (`I`, `TP`, `LRA` match FFmpeg `loudnorm`
/// options). Each target is held as the decimal text that is handed to FFmpeg.
#[derive(Debug)]
pub struct LoudnormConfig {
    /// Integrated loudness target (LUFS), e.g. -16 for EBU R128 broadcast.
    pub integrated_lufs: String,
    /// Maximum true peak (dBFS), e.g. -1.5.
    pub true_peak_dbfs: String,
    /// Loudness range (LU), e.g. 11.
    pub loudness_range: String,
}

/// `loudnorm=I=<i>:TP=<tp>:LRA=<lra>`.
pub open spec fn loudnorm_filter_text(i: Seq<char>, tp: Seq<char>, lra: Seq<char>) -> Seq<char> {
    "loudnorm=I="@ + i + ":TP="@ + tp + ":LRA="@ + lra
}

impl LoudnormConfig {
    /// The single-pass filter for this configuration.
    pub open spec fn filter_spec(&self) -> Seq<char> {
        loudnorm_filter_text(self.integrated_lufs@, self.true_peak_dbfs@, self.loudness_range@)
    }

    /// Streaming-oriented defaults (approx. -14 LUFS integrated).
    pub fn streaming() -> (r: Self)
        ensures
            r.integrated_lufs@ == "-14"@,
            r.true_peak_dbfs@ == "-1"@,
            r.loudness_range@ == "11"@,
    {
        LoudnormConfig {
            integrated_lufs: String::from_str("-14"),
            true_peak_dbfs: String::from_str("-1"),
            loudness_range: String::from_str("11"),
        }
    }

    /// FFmpeg `-af` value for this config (single-pass `loudnorm`).
    pub fn loudnorm_filter(&self) -> (r: String)
        ensures
            r@ == self.filter_spec(),
    {
        let mut s = String::from_str("loudnorm=I=");
        s.append(self.integrated_lufs.as_str());
        s.append(":TP=");
        s.append(self.true_peak_dbfs.as_str());
        s.append(":LRA=");
        s.append(self.loudness_range.as_str());
        s
    }

    /// FFmpeg `-af` value for the analysis pass of a two-pass run: the
    /// single-pass filter asking for a JSON report.
    pub fn analysis_filter(&self) -> (r: String)
        ensures
            r@ == self.filter_spec() + ":print_format=json"@,
    {
        let mut s = self.loudnorm_filter();
        s.append(":print_format=json");
        s
    }

    /// FFmpeg `-af` value for the second pass of a two-pass run, which feeds
    /// back the values measured by the analysis pass.
    pub fn measured_filter(&self, m: &Measured) -> (r: String)
        ensures
            r@ == self.filter_spec() + ":measured_i="@ + m.input_i@ + ":measured_tp="@
                + m.input_tp@ + ":measured_lra="@ + m.input_lra@ + ":measured_thresh="@
                + m.input_thresh@ + ":offset="@ + m.target_offset@ + ":linear=true"@,
    {
        let mut s = self.loudnorm_filter();
        s.append(":measured_i=");
        s.append(m.input_i.as_str());
        s.append(":measured_tp=");
        s.append(m.input_tp.as_str());
        s.append(":measured_lra=");
        s.append(m.input_lra.as_str());
        s.append(":measured_thresh=");
        s.append(m.input_thresh.as_str());
        s.append(":offset=");
        s.append(m.target_offset.as_str());
        s.append(":linear=true");
        s
    }
}

/// The single-pass filter carries each target of the configuration in its
/// place: `loudnorm=I=` then the integrated loudness, `:TP=` then the true
/// peak, `:LRA=` then the loudness range. In particular it ends with the
/// loudness range, and two configurations with different ranges (and equal
/// other targets) give different filters.
pub proof fn lemma_filter_carries_targets(c: LoudnormConfig, d: LoudnormConfig)
    ensures
        c.filter_spec() == "loudnorm=I="@ + c.integrated_lufs@ + ":TP="@ + c.true_peak_dbfs@
            + ":LRA="@ + c.loudness_range@,
        c.filter_spec().skip(c.filter_spec().len() - c.loudness_range@.len())
            == c.loudness_range@,
        c.integrated_lufs@ == d.integrated_lufs@ && c.true_peak_dbfs@ == d.true_peak_dbfs@
            && c.loudness_range@ != d.loudness_range@ ==> c.filter_spec() != d.filter_spec(),
{
    let f = c.filter_spec();
    let pre = "loudnorm=I="@ + c.integrated_lufs@ + ":TP="@ + c.true_peak_dbfs@ + ":LRA="@;
    assert(f =~= pre + c.loudness_range@);
    assert(f.skip(f.len() - c.loudness_range@.len()) =~= c.loudness_range@);
    let g = d.filter_spec();
    if c.integrated_lufs@ == d.integrated_lufs@ && c.true_peak_dbfs@ == d.true_peak_dbfs@ && f
        == g {
        assert(g =~= pre + d.loudness_range@);
        assert(f.skip(pre.len() as int) =~= c.loudness_range@);
        assert(g.skip(pre.len() as int) =~= d.loudness_range@);
    }
}

impl Default for LoudnormConfig {
    /// EBU R128 broadcast targets: -16 LUFS, -1.5 dBFS true peak, 11 LU range.
    fn default() -> (r: Self)
        ensures
            r.integrated_lufs@ == "-16"@,
            r.true_peak_dbfs@ == "-1.5"@,
            r.loudness_range@ == "11"@,
    {
        LoudnormConfig {
            integrated_lufs: String::from_str("-16"),
            true_peak_dbfs: String::from_str("-1.5"),
            loudness_range: String::from_str("11"),
        }
    }
}

/// The FFmpeg arguments of one run around the places of the input path, the
/// user's extra arguments and the output path: the full argument list is
/// `before_input`, the input, `before_extras`, the extras, `before_output`,
/// then the output (see `invocation`).
pub struct FfmpegArgs {
    pub before_input: Vec<String>,
    pub before_extras: Vec<String>,
    pub before_output: Vec<String>,
}

/// The full FFmpeg argument list of a run with these parts.
pub open spec fn invocation(
    args: FfmpegArgs,
    input: Seq<char>,
    extras: Seq<Seq<char>>,
    output: Seq<char>,
) -> Seq<Seq<char>> {
    views(args.before_input@) + seq![input] + views(args.before_extras@) + extras + views(
        args.before_output@,
    ) + seq![output]
}

/// Arguments of a single-pass run: `-y -hide_banner -loglevel error -i <input>
/// -af <filter>`, the extras, then `<output>`.
pub fn single_pass_args(config: &LoudnormConfig) -> (r: FfmpegArgs)
    ensures
        views(r.before_input@) == seq!["-y"@, "-hide_banner"@, "-loglevel"@, "error"@, "-i"@],
        views(r.before_extras@) == seq!["-af"@, config.filter_spec()],
        views(r.before_output@) == Seq::<Seq<char>>::empty(),
{
    let mut before_input: Vec<String> = Vec::new();
    push_text(&mut before_input, "-y");
    push_text(&mut before_input, "-hide_banner");
    push_text(&mut before_input, "-loglevel");
    push_text(&mut before_input, "error");
    push_text(&mut before_input, "-i");
    let mut before_extras: Vec<String> = Vec::new();
    push_text(&mut before_extras, "-af");
    push_string(&mut before_extras, config.loudnorm_filter());
    let before_output: Vec<String> = Vec::new();
    assert(views(before_input@) =~= seq!["-y"@, "-hide_banner"@, "-loglevel"@, "error"@, "-i"@]);
    assert(views(before_extras@) =~= seq!["-af"@, config.filter_spec()]);
    assert(views(before_output@) =~= Seq::<Seq<char>>::empty());
    FfmpegArgs { before_input, before_extras, before_output }
}

/// Arguments of the analysis pass of a two-pass run, before and after the
/// input path: `-hide_banner -i <input> -af <analysis filter> -f null -`. The
/// user's extra arguments have no place here.
pub fn analysis_pass_args(config: &LoudnormConfig) -> (r: (Vec<String>, Vec<String>))
    ensures
        views(r.0@) == seq!["-hide_banner"@, "-i"@],
        views(r.1@) == seq![
            "-af"@,
            config.filter_spec() + ":print_format=json"@,
            "-f"@,
            "null"@,
            "-"@,
        ],
{
    let mut before: Vec<String> = Vec::new();
    push_text(&mut before, "-hide_banner");
    push_text(&mut before, "-i");
    let mut after: Vec<String> = Vec::new();
    push_text(&mut after, "-af");
    push_string(&mut after, config.analysis_filter());
    push_text(&mut after, "-f");
    push_text(&mut after, "null");
    push_text(&mut after, "-");
    assert(views(before@) =~= seq!["-hide_banner"@, "-i"@]);
    assert(views(after@) =~= seq![
        "-af"@,
        config.filter_spec() + ":print_format=json"@,
        "-f"@,
        "null"@,
        "-"@,
    ]);
    (before, after)
}

/// Arguments of the second pass of a two-pass run: `-hide_banner -stats -loglevel
/// error -y -i <input> -af <measured filter>`, the extras, then `-c:v copy -ar
/// 48000 <output>`.
pub fn second_pass_args(config: &LoudnormConfig, m: &Measured) -> (r: FfmpegArgs)
    ensures
        views(r.before_input@) == seq![
            "-hide_banner"@,
            "-stats"@,
            "-loglevel"@,
            "error"@,
            "-y"@,
            "-i"@,
        ],
        views(r.before_extras@) == seq![
            "-af"@,
            config.filter_spec() + ":measured_i="@ + m.input_i@ + ":measured_tp="@ + m.input_tp@
                + ":measured_lra="@ + m.input_lra@ + ":measured_thresh="@ + m.input_thresh@
                + ":offset="@ + m.target_offset@ + ":linear=true"@,
        ],
        views(r.before_output@) == seq!["-c:v"@, "copy"@, "-ar"@, "48000"@],
{
    let mut before_input: Vec<String> = Vec::new();
    push_text(&mut before_input, "-hide_banner");
    push_text(&mut before_input, "-stats");
    push_text(&mut before_input, "-loglevel");
    push_text(&mut before_input, "error");
    push_text(&mut before_input, "-y");
    push_text(&mut before_input, "-i");
    let mut before_extras: Vec<String> = Vec::new();
    push_text(&mut before_extras, "-af");
    push_string(&mut before_extras, config.measured_filter(m));
    let mut before_output: Vec<String> = Vec::new();
    push_text(&mut before_output, "-c:v");
    push_text(&mut before_output, "copy");
    push_text(&mut before_output, "-ar");
    push_text(&mut before_output, "48000");
    assert(views(before_input@) =~= seq![
        "-hide_banner"@,
        "-stats"@,
        "-loglevel"@,
        "error"@,
        "-y"@,
        "-i"@,
    ]);
    assert(views(before_extras@) =~= seq![
        "-af"@,
        config.filter_spec() + ":measured_i="@ + m.input_i@ + ":measured_tp="@ + m.input_tp@
            + ":measured_lra="@ + m.input_lra@ + ":measured_thresh="@ + m.input_thresh@
            + ":offset="@ + m.target_offset@ + ":linear=true"@,
    ]);
    assert(views(before_output@) =~= seq!["-c:v"@, "copy"@, "-ar"@, "48000"@]);
    FfmpegArgs { before_input, before_extras, before_output }
}

/// The values that the analysis pass measured, as FFmpeg printed them.
#[derive(Debug)]
pub struct Measured {
    pub input_i: String,
    pub input_tp: String,
    pub input_lra: String,
    pub input_thresh: String,
    pub target_offset: String,
}

/// The regular expression that finds `"<key>": "<text>"` and captures `<text>`.
pub open spec fn quoted_field_pattern(key: Seq<char>) -> Seq<char> {
    "\""@ + key + "\"\\s*:\\s*\"([^\"]*)\""@
}

/// The regular expression that finds `"<key>": <number>` and captures `<number>`.
pub open spec fn numeric_field_pattern(key: Seq<char>) -> Seq<char> {
    "\""@ + key + "\"\\s*:\\s*(-?[\\d.]+)"@
}

/// Group 1 of a match, when there was a match and the group took part in it.
pub open spec fn group_text(found: Option<Option<Seq<char>>>) -> Option<Seq<char>> {
    match found {
        Some(Some(t)) => Some(t),
        _ => None,
    }
}

/// The value of field `key` in the `loudnorm` JSON report within `stderr`: the
/// quoted form is looked for first; only when it does not occur at all is the
/// bare numeric form looked for. `None` when a pattern is refused by the regex
/// crate or the field is not found.
pub open spec fn loudnorm_json_field(stderr: Seq<char>, key: Seq<char>) -> Option<Seq<char>> {
    let quoted = quoted_field_pattern(key);
    let numeric = numeric_field_pattern(key);
    if !regex_accepts(quoted) {
        None
    } else {
        match regex_first_group1(quoted, stderr) {
            Some(group) => group,
            None => if !regex_accepts(numeric) {
                None
            } else {
                group_text(regex_first_group1(numeric, stderr))
            },
        }
    }
}

/// Parse a field from `loudnorm` JSON printed to stderr (pass 1).
pub fn extract_loudnorm_json_field(stderr: &str, key: &str) -> (r: Option<String>)
    ensures
        opt_view(r) == loudnorm_json_field(stderr@, key@),
        r matches Some(v) ==> is_substring(v@, stderr@),
{
    let mut quoted_source = String::from_str("\"");
    quoted_source.append(key);
    quoted_source.append("\"\\s*:\\s*\"([^\"]*)\"");
    let quoted = match compile(quoted_source.as_str()) {
        Some(p) => p,
        None => return None,
    };
    match first_group1(&quoted, stderr) {
        Some(group) => return group,
        None => {},
    }
    let mut numeric_source = String::from_str("\"");
    numeric_source.append(key);
    numeric_source.append("\"\\s*:\\s*(-?[\\d.]+)");
    let numeric = match compile(numeric_source.as_str()) {
        Some(p) => p,
        None => return None,
    };
    match first_group1(&numeric, stderr) {
        Some(Some(t)) => Some(t),
        _ => None,
    }
}

/// The value of `key`, or the empty text when it is not found.
pub open spec fn field_or_empty(stderr: Seq<char>, key: Seq<char>) -> Seq<char> {
    match loudnorm_json_field(stderr, key) {
        Some(v) => v,
        None => Seq::empty(),
    }
}

/// Why a two-pass normalization stopped.
#[derive(Clone, Copy, Debug, PartialEq, Eq)]
pub enum LoudnormError {
    /// The analysis pass did not report the integrated loudness.
    MissingIntegratedLoudness,
    /// FFmpeg reported failure in the second pass.
    SecondPassFailed,
}

impl LoudnormError {
    /// The message reported for this error.
    pub fn message(&self) -> (r: String)
        ensures
            r@ == match self {
                LoudnormError::MissingIntegratedLoudness =>
                    "loudnorm analysis did not return input_i; check ffmpeg and input file"@,
                LoudnormError::SecondPassFailed => "ffmpeg loudnorm pass 2 failed"@,
            },
    {
        match self {
            LoudnormError::MissingIntegratedLoudness => String::from_str(
                "loudnorm analysis did not return input_i; check ffmpeg and input file",
            ),
            LoudnormError::SecondPassFailed => String::from_str("ffmpeg loudnorm pass 2 failed"),
        }
    }
}

/// The measurements in the analysis pass's stderr. The integrated loudness
/// (`input_i`) must be there; every other value that is missing is left empty.
pub fn measured_from_analysis(stderr: &str) -> (r: Result<Measured, LoudnormError>)
    ensures
        r is Ok <==> loudnorm_json_field(stderr@, "input_i"@) is Some,
        r matches Err(e) ==> e == LoudnormError::MissingIntegratedLoudness,
        r matches Ok(m) ==> {
            &&& Some(m.input_i@) == loudnorm_json_field(stderr@, "input_i"@)
            &&& m.input_tp@ == field_or_empty(stderr@, "input_tp"@)
            &&& m.input_lra@ == field_or_empty(stderr@, "input_lra"@)
            &&& m.input_thresh@ == field_or_empty(stderr@, "input_thresh"@)
            &&& m.target_offset@ == field_or_empty(stderr@, "target_offset"@)
        },
        r matches Ok(m) ==> {
            &&& is_substring(m.input_i@, stderr@)
            &&& m.input_tp@ == Seq::<char>::empty() || is_substring(m.input_tp@, stderr@)
            &&& m.input_lra@ == Seq::<char>::empty() || is_substring(m.input_lra@, stderr@)
            &&& m.input_thresh@ == Seq::<char>::empty() || is_substring(m.input_thresh@, stderr@)
            &&& m.target_offset@ == Seq::<char>::empty() || is_substring(
                m.target_offset@,
                stderr@,
            )
        },
{
    let input_i = match extract_loudnorm_json_field(stderr, "input_i") {
        Some(v) => v,
        None => return Err(LoudnormError::MissingIntegratedLoudness),
    };
    let input_tp = match extract_loudnorm_json_field(stderr, "input_tp") {
        Some(v) => v,
        None => String::new(),
    };
    let input_lra = match extract_loudnorm_json_field(stderr, "input_lra") {
        Some(v) => v,
        None => String::new(),
    };
    let input_thresh = match extract_loudnorm_json_field(stderr, "input_thresh") {
        Some(v) => v,
        None => String::new(),
    };
    let target_offset = match extract_loudnorm_json_field(stderr, "target_offset") {
        Some(v) => v,
        None => String::new(),
    };
    Ok(Measured { input_i, input_tp, input_lra, input_thresh, target_offset })
}

/// The message of a failed single-pass run: `ffmpeg loudnorm failed: ` and
/// FFmpeg's stderr without surrounding whitespace.
pub fn single_pass_failure_message(stderr: &str) -> (r: String)
    ensures
        r@ == "ffmpeg loudnorm failed: "@ + trimmed(stderr@),
{
    let mut s = String::from_str("ffmpeg loudnorm failed: ");
    let t = trim(stderr);
    s.append(t.as_str());
    s
}

} // verus!
