//! Decisions of the `normalize` command line: where FFmpeg's own arguments
//! begin, and which files are normalized to which outputs.
use vstd::prelude::*;
use crate::paths::{default_normalized_path, normalized_file_name, parent_or_dot, path_join};
use crate::text::{decimal, decimal_text, views};

verus! {

broadcast use vstd::string::group_string_axioms;

/// The first index of `--` in `args`, if it occurs.
pub open spec fn first_double_dash(args: Seq<Seq<char>>) -> Option<int> {
    if exists|i: int|
        0 <= i < args.len() && #[trigger] args[i] == "--"@ && forall|j: int|
            0 <= j < i ==> #[trigger] args[j] != "--"@ {
        Some(
            choose|i: int|
                0 <= i < args.len() && #[trigger] args[i] == "--"@ && forall|j: int|
                    0 <= j < i ==> #[trigger] args[j] != "--"@,
        )
    } else {
        None
    }
}

/// The index of the first standalone `--` in `args`, if any.
pub fn double_dash_position(args: &Vec<String>) -> (r: Option<usize>)
    ensures
        match r {
            Some(i) => {
                &&& i < args@.len()
                &&& args@[i as int]@ == "--"@
                &&& forall|j: int| 0 <= j < i ==> #[trigger] args@[j]@ != "--"@
            },
            None => forall|j: int| 0 <= j < args@.len() ==> #[trigger] args@[j]@ != "--"@,
        },
{
    let dash = String::from_str("--");
    let n = args.len();
    let mut i: usize = 0;
    while i < n
        invariant
            i <= n,
            n == args@.len(),
            dash@ == "--"@,
            forall|j: int| 0 <= j < i ==> #[trigger] args@[j]@ != "--"@,
        decreases n - i,
    {
        if args[i] == dash {
            return Some(i);
        }
        i = i + 1;
    }
    None
}

/// Splits `args` around the element at `position`, which is dropped: the
/// elements before it, and the elements after it. Without a position, all of
/// `args` and nothing.
pub fn split_around<T>(args: Vec<T>, position: Option<usize>) -> (r: (Vec<T>, Vec<T>))
    requires
        position matches Some(i) ==> i < args@.len(),
    ensures
        match position {
            Some(i) => r.0@ == args@.take(i as int) && r.1@ == args@.skip(i + 1),
            None => r.0@ == args@ && r.1@.len() == 0,
        },
{
    let mut args = args;
    let n = args.len();
    match position {
        Some(i) => {
            assert(i < n);
            let extra = args.split_off(i + 1);
            let _ = args.pop();
            (args, extra)
        },
        None => (args, Vec::new()),
    }
}

/// Split `argv` at the first standalone `--`: left side is parsed as the
/// command's own arguments, right side is passed to ffmpeg.
pub fn split_at_double_dash(args: Vec<String>) -> (r: (Vec<String>, Vec<String>))
    ensures
        match first_double_dash(views(args@)) {
            Some(i) => {
                &&& r.0@ == args@.take(i)
                &&& r.1@ == args@.skip(i + 1)
            },
            None => r.0@ == args@ && r.1@.len() == 0,
        },
{
    let position = double_dash_position(&args);
    proof {
        let v = views(args@);
        match position {
            Some(i) => {
                assert(v[i as int] == "--"@);
                let k = choose|k: int|
                    0 <= k < v.len() && #[trigger] v[k] == "--"@ && forall|j: int|
                        0 <= j < k ==> #[trigger] v[j] != "--"@;
                if k < i {
                    assert(args@[k]@ != "--"@);
                }
                if i < k {
                    assert(v[i as int] != "--"@);
                }
            },
            None => {
                assert forall|j: int| 0 <= j < v.len() implies #[trigger] v[j] != "--"@ by {
                    assert(args@[j]@ != "--"@);
                }
            },
        }
    }
    split_around(args, position)
}

/// Whatever `split_at_double_dash` returns, putting the two sides back around a
/// `--` gives the original arguments, and the left side holds no `--`.
pub proof fn lemma_double_dash_split_restores(args: Seq<Seq<char>>)
    requires
        first_double_dash(args) is Some,
    ensures
        ({
            let i = first_double_dash(args).unwrap();
            &&& args.take(i) + seq!["--"@] + args.skip(i + 1) == args
            &&& forall|j: int| 0 <= j < args.take(i).len() ==> #[trigger] args.take(i)[j] != "--"@
        }),
{
    let i = first_double_dash(args).unwrap();
    assert(args.take(i) + seq!["--"@] + args.skip(i + 1) =~= args);
}

/// What the `-i` path is on disk.
#[derive(Clone, Copy, Debug, PartialEq, Eq)]
pub enum InputKind {
    /// Nothing exists at the path.
    Missing,
    /// A directory.
    Directory,
    /// A regular file.
    File,
    /// Something else (neither a file nor a directory).
    Other,
}

/// One normalization: read `input`, write `output`.
#[derive(Debug)]
pub struct Job {
    pub input: String,
    pub output: String,
}

/// Why `normalize` refuses to run.
#[derive(Clone, Copy, Debug, PartialEq, Eq)]
pub enum NormalizeError {
    /// The input path does not exist.
    InputNotFound,
    /// An output path was given for a directory input.
    OutputWithDirectory,
    /// The input directory holds no supported audio file.
    NoAudioFiles,
    /// The input is neither a file nor a directory.
    NotFileOrDirectory,
}

/// The next step of `normalize` once the input path has been examined.
#[derive(Debug)]
pub enum NormalizeStep {
    /// List the audio files of the input directory, then call `directory_jobs`.
    ListDirectory,
    /// Run these jobs.
    Run(Vec<Job>),
    /// Stop with this error.
    Stop(NormalizeError),
}

/// The default output of `input`.
pub open spec fn default_output(input: Seq<char>) -> Seq<char> {
    path_join(parent_or_dot(input), normalized_file_name(input))
}

/// Decides what `normalize` does with the input `input` of kind `kind`, given
/// the `-o` value `output`.
pub fn normalize_step(input: &str, kind: InputKind, output: Option<String>) -> (r: NormalizeStep)
    ensures
        kind == InputKind::Missing ==> r == NormalizeStep::Stop(NormalizeError::InputNotFound),
        kind == InputKind::Directory ==> (output is Some ==> r == NormalizeStep::Stop(
            NormalizeError::OutputWithDirectory,
        )) && (output is None ==> r == NormalizeStep::ListDirectory),
        kind == InputKind::Other ==> r == NormalizeStep::Stop(NormalizeError::NotFileOrDirectory),
        kind == InputKind::File ==> (r matches NormalizeStep::Run(jobs) && jobs@.len() == 1
            && jobs@[0].input@ == input@ && jobs@[0].output@ == match output {
            Some(o) => o@,
            None => default_output(input@),
        }),
{
    match kind {
        InputKind::Missing => NormalizeStep::Stop(NormalizeError::InputNotFound),
        InputKind::Directory => {
            if output.is_some() {
                NormalizeStep::Stop(NormalizeError::OutputWithDirectory)
            } else {
                NormalizeStep::ListDirectory
            }
        },
        InputKind::Other => NormalizeStep::Stop(NormalizeError::NotFileOrDirectory),
        InputKind::File => {
            let out = match output {
                Some(o) => o,
                None => default_normalized_path(input),
            };
            let mut jobs: Vec<Job> = Vec::new();
            jobs.push(Job { input: String::from_str(input), output: out });
            NormalizeStep::Run(jobs)
        },
    }
}

/// The jobs for the audio files `files` listed in an input directory: each is
/// written to its default output beside it. An empty listing is an error.
pub fn directory_jobs(files: &Vec<String>) -> (r: Result<Vec<Job>, NormalizeError>)
    ensures
        files@.len() == 0 <==> r is Err,
        r matches Err(e) ==> e == NormalizeError::NoAudioFiles,
        r matches Ok(jobs) ==> {
            &&& jobs@.len() == files@.len()
            &&& forall|k: int|
                0 <= k < files@.len() ==> (#[trigger] jobs@[k]).input@ == files@[k]@
                    && jobs@[k].output@ == default_output(files@[k]@)
        },
{
    if files.len() == 0 {
        return Err(NormalizeError::NoAudioFiles);
    }
    let mut jobs: Vec<Job> = Vec::new();
    let n = files.len();
    let mut i: usize = 0;
    while i < n
        invariant
            i <= n,
            n == files@.len(),
            jobs@.len() == i,
            forall|k: int|
                0 <= k < i ==> (#[trigger] jobs@[k]).input@ == files@[k]@ && jobs@[k].output@
                    == default_output(files@[k]@),
        decreases n - i,
    {
        let out = default_normalized_path(files[i].as_str());
        jobs.push(Job { input: files[i].clone(), output: out });
        i = i + 1;
    }
    Ok(jobs)
}

impl NormalizeError {
    /// The message printed when `normalize` stops with this error for `input`.
    pub fn message(&self, input: &str) -> (r: String)
        ensures
            r@ == match self {
                NormalizeError::InputNotFound => "normalize: input not found: "@ + input@,
                NormalizeError::OutputWithDirectory =>
                    "normalize: -o/--output cannot be used when -i is a directory (each file is written as <stem>_normalized.<ext> beside the source)"@,
                NormalizeError::NoAudioFiles =>
                    "normalize: no supported audio files (m4a, mp3, flac, wav) in "@ + input@,
                NormalizeError::NotFileOrDirectory =>
                    "normalize: input must be a file or directory"@,
            },
    {
        match self {
            NormalizeError::InputNotFound => {
                let mut s = String::from_str("normalize: input not found: ");
                s.append(input);
                s
            },
            NormalizeError::OutputWithDirectory => String::from_str(
                "normalize: -o/--output cannot be used when -i is a directory (each file is written as <stem>_normalized.<ext> beside the source)",
            ),
            NormalizeError::NoAudioFiles => {
                let mut s = String::from_str(
                    "normalize: no supported audio files (m4a, mp3, flac, wav) in ",
                );
                s.append(input);
                s
            },
            NormalizeError::NotFileOrDirectory => String::from_str(
                "normalize: input must be a file or directory",
            ),
        }
    }
}

/// The progress line before normalizing into `output`, naming the mode.
pub fn mode_line(single_pass: bool, output: &str) -> (r: String)
    ensures
        r@ == (if single_pass {
            "normalize: single-pass \u{2192} "@
        } else {
            "normalize: two-pass \u{2192} "@
        }) + output@,
{
    let mut s = if single_pass {
        String::from_str("normalize: single-pass \u{2192} ")
    } else {
        String::from_str("normalize: two-pass \u{2192} ")
    };
    s.append(output);
    s
}

/// `normalize: batch <count> file(s) in <input>`.
pub fn batch_line(count: usize, input: &str) -> (r: String)
    ensures
        r@ == "normalize: batch "@ + decimal(count as nat) + " file(s) in "@ + input@,
{
    let mut s = String::from_str("normalize: batch ");
    let n = decimal_text(count as u64);
    s.append(n.as_str());
    s.append(" file(s) in ");
    s.append(input);
    s
}

/// `normalize: <input> → <output>`, before each file of a batch.
pub fn job_line(input: &str, output: &str) -> (r: String)
    ensures
        r@ == "normalize: "@ + input@ + " \u{2192} "@ + output@,
{
    let mut s = String::from_str("normalize: ");
    s.append(input);
    s.append(" \u{2192} ");
    s.append(output);
    s
}

/// `normalize: done`.
pub fn done_line() -> (r: String)
    ensures
        r@ == "normalize: done"@,
{
    String::from_str("normalize: done")
}

} // verus!
