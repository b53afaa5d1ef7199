use loudness_check::extensions::{is_supported_audio_extension, str_eq_ignore_ascii_case};
use loudness_check::paths::{
    audio_file_order, default_normalized_path, file_stem_of, extension_of, has_file_name,
    has_supported_audio_extension, sorted_audio_files,
};

#[test]
fn supported_extensions_ignore_ascii_case() {
    for e in ["m4a", "mp3", "flac", "wav", "WAV", "Flac", "M4A", "mP3"] {
        assert!(is_supported_audio_extension(e), "{}", e);
    }
    for e in ["", "ogg", "wav ", ".wav", "wave", "fla", "aac"] {
        assert!(!is_supported_audio_extension(e), "{}", e);
    }
}

#[test]
fn case_insensitive_comparison() {
    assert!(str_eq_ignore_ascii_case("Hello", "hELLO"));
    assert!(!str_eq_ignore_ascii_case("Hello", "Hell"));
    assert!(!str_eq_ignore_ascii_case("É", "é"));
}

#[test]
fn audio_paths_by_extension() {
    assert!(has_supported_audio_extension("dir/song.MP3"));
    assert!(has_supported_audio_extension("/a/b.c/track.flac"));
    assert!(!has_supported_audio_extension("song"));
    assert!(!has_supported_audio_extension(".wav"));
    assert!(!has_supported_audio_extension("notes.txt"));
    let kept = sorted_audio_files(&vec![
        "d.M4A".to_string(),
        "a.txt".to_string(),
        "b.wav".to_string(),
        "c".to_string(),
    ]);
    assert_eq!(kept, vec!["b.wav".to_string(), "d.M4A".to_string()]);
}

#[test]
fn normalized_copy_of_audio_is_audio() {
    for p in ["a/b.WAV", "song.flac", "x/y.z.m4a"] {
        let out = default_normalized_path(p);
        assert!(has_supported_audio_extension(&out), "{}", out);
    }
    assert_eq!(default_normalized_path("x/y.z.m4a"), "x/y.z_normalized.m4a");
}

#[test]
fn audio_files_sorted_by_path_components() {
    // Paths compare component by component: "a" < "a-b.wav" although '-' < '/'.
    let listed = vec![
        "a-b.wav".to_string(),
        "a/b.wav".to_string(),
        "z/readme.txt".to_string(),
        "a/a.flac".to_string(),
    ];
    assert_eq!(
        sorted_audio_files(&listed),
        vec!["a/a.flac".to_string(), "a/b.wav".to_string(), "a-b.wav".to_string()]
    );
    assert_eq!(audio_file_order(&listed), vec![3, 1, 0]);
    assert!(sorted_audio_files(&vec![]).is_empty());
}

#[test]
fn stems_and_extensions() {
    assert_eq!(file_stem_of("a/archive.tar.gz").as_deref(), Some("archive.tar"));
    assert_eq!(extension_of("a/archive.tar.gz").as_deref(), Some("gz"));
    assert_eq!(file_stem_of(".bashrc").as_deref(), Some(".bashrc"));
    assert_eq!(extension_of(".bashrc"), None);
    assert_eq!(extension_of("name."), Some(String::new()));
    assert_eq!(file_stem_of("/"), None);
    assert!(has_file_name("x/y.wav"));
    assert!(!has_file_name("/"));
    assert!(!has_file_name("music/.."));
}

#[test]
fn audio_files_sorted_pairwise() {
    let listed: Vec<String> = ["b/z.wav", "a.mp3", "b/a.wav", "a/c.flac", "b.m4a", "a/c.flac"]
        .iter()
        .map(|s| s.to_string())
        .collect();
    let sorted = sorted_audio_files(&listed);
    assert_eq!(sorted.len(), 6);
    for i in 0..sorted.len() {
        for j in i + 1..sorted.len() {
            assert!(std::path::Path::new(&sorted[i]) <= std::path::Path::new(&sorted[j]));
        }
    }
}
