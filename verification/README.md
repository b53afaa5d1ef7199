# loudness_check

Loudness measurement (`loudness`, EBU R128 via FFmpeg's `ebur128` filter) and
loudness normalization (`normalize`, FFmpeg's `loudnorm` filter, single- or
two-pass) of audio files. FFmpeg must be on `PATH`.

## Layout

- `src/` — the library, written in Verus. Its functions carry contracts that
  Verus proves, except the few thin wrappers around `std::path` and the
  `regex` crate (and the specification of `String::push`), whose contracts are
  taken on trust from those libraries' documentation.
  - `extensions.rs` — the supported audio extensions (`m4a`, `mp3`, `flac`,
    `wav`, ASCII case-insensitive).
  - `paths.rs` — the audio filter on paths, the sorted selection of audio
    files from a directory listing, and the default output path
    `<parent>/<stem>_normalized.<ext>`; path syntax and path order come from
    `std::path`.
  - `pattern.rs` — regular-expression searches, made by the `regex` crate.
  - `loudnorm.rs` — `loudnorm` filters, FFmpeg argument lists of single-pass
    and two-pass runs, and the measurements read from the analysis report.
  - `plan.rs` — splitting the command line at `--`, and the jobs of a
    `normalize` run.
  - `report.rs` — metrics read from the `ebur128` summary, report rows, the
    Markdown table and the log of a `loudness` run.
  - `text.rs` — string helpers (decimal numbers, joining, trimming).
- `app/` — the command-line programs: argument parsing, running FFmpeg,
  walking directories, writing files and the clock.
- `tests/` — tests of the library.

Run `app` as `loudness …`, `normalize …` or `ffmpeg-usage` (by program name),
or give the tool's name as the first argument; otherwise it runs `loudness`.
