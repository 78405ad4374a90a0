use recordr::config::pick_supported_rate;
use recordr::file_utils::{
    import_sentences, parse_delimited, parse_import_format, parse_txt, ImportFormat,
};
use recordr::recent::{add_recent_project, RecentProject, RecentProjectsData};
use recordr::strutil::{join_path, str_eq, str_le, trim_str, wav_file_name};
use recordr::wav::utterance_wav_bytes;

#[test]
fn parse_txt_numbers_and_trims_lines() {
    let sentences = parse_txt("  Hello world \nsecond line\n\nlast");
    assert_eq!(sentences.len(), 4);
    assert_eq!(sentences[0].id, 1);
    assert_eq!(sentences[0].text, "Hello world");
    assert_eq!(sentences[1].id, 2);
    assert_eq!(sentences[1].text, "second line");
    assert_eq!(sentences[2].text, "");
    assert_eq!(sentences[3].id, 4);
    assert_eq!(sentences[3].text, "last");
    assert!(sentences.iter().all(|s| !s.recorded && s.audio_file_path.is_none()));
}

#[test]
fn parse_txt_handles_crlf_and_trailing_newline() {
    let sentences = parse_txt("one\r\ntwo\r\n");
    assert_eq!(sentences.len(), 2);
    assert_eq!(sentences[0].text, "one");
    assert_eq!(sentences[1].text, "two");
    assert!(parse_txt("").is_empty());
}

#[test]
fn parse_csv_takes_first_field_after_header() {
    let contents = "text,notes\nHello world,greeting\nGoodbye,farewell";
    let sentences = parse_delimited(contents, b',').unwrap();
    assert_eq!(sentences.len(), 2);
    assert_eq!(sentences[0].id, 1);
    assert_eq!(sentences[0].text, "Hello world");
    assert_eq!(sentences[1].id, 2);
    assert_eq!(sentences[1].text, "Goodbye");
}

#[test]
fn parse_tsv_takes_first_field_after_header() {
    let contents = "text\tnotes\nfirst\ta\nsecond\tb";
    let sentences = parse_delimited(contents, b'\t').unwrap();
    assert_eq!(sentences.len(), 2);
    assert_eq!(sentences[0].text, "first");
    assert_eq!(sentences[1].text, "second");
}

#[test]
fn import_assigns_ids_and_audio_paths() {
    let sentences = import_sentences("alpha\nbeta", ImportFormat::Txt, "projects/demo").unwrap();
    assert_eq!(sentences.len(), 2);
    assert_eq!(sentences[0].id, 1);
    assert_eq!(sentences[0].text, "alpha");
    assert_eq!(sentences[0].audio_file_path, Some("projects/demo/alpha.wav".to_string()));
    assert_eq!(sentences[1].id, 2);
    assert_eq!(sentences[1].audio_file_path, Some("projects/demo/beta.wav".to_string()));
    assert!(!sentences[0].recorded);
}

#[test]
fn import_format_by_extension() {
    assert_eq!(parse_import_format("txt"), Some(ImportFormat::Txt));
    assert_eq!(parse_import_format("csv"), Some(ImportFormat::Csv));
    assert_eq!(parse_import_format("tsv"), Some(ImportFormat::Tsv));
    assert_eq!(parse_import_format("wav"), None);
    assert_eq!(parse_import_format(""), None);
}

#[test]
fn wav_file_name_sanitizes_sentence_text() {
    assert_eq!(wav_file_name("Hello world"), "Hello_world.wav");
    assert_eq!(wav_file_name("  spaced  out  "), "spaced__out.wav");
    assert_eq!(wav_file_name("single"), "single.wav");
    assert_eq!(wav_file_name(""), ".wav");
}

#[test]
fn trim_str_removes_surrounding_whitespace() {
    assert_eq!(trim_str("  both sides \t"), "both sides");
    assert_eq!(trim_str("none"), "none");
    assert_eq!(trim_str(" \r\n "), "");
}

#[test]
fn string_comparisons() {
    assert!(str_le("2024-01-01", "2024-06-01"));
    assert!(!str_le("2024-06-01", "2024-01-01"));
    assert!(str_le("abc", "abc"));
    assert!(str_le("ab", "abc"));
    assert!(str_eq("same", "same"));
    assert!(!str_eq("same", "other"));
    assert_eq!(join_path("dir", "file.wav"), "dir/file.wav");
}

fn recent(path: &str, stamp: &str) -> RecentProject {
    RecentProject {
        path: path.to_string(),
        name: path.to_string(),
        last_accessed: stamp.to_string(),
    }
}

#[test]
fn recent_projects_update_sort_and_truncate() {
    let data = RecentProjectsData {
        app_version: "old".to_string(),
        recent_projects: vec![
            recent("a", "2024-01-01T00:00:00Z"),
            recent("b", "2024-03-01T00:00:00Z"),
        ],
    };
    // Re-accessing an existing path updates its entry instead of adding one.
    let data = add_recent_project(data, recent("a", "2024-06-01T00:00:00Z"), "1.2".to_string());
    assert_eq!(data.app_version, "1.2");
    assert_eq!(data.recent_projects.len(), 2);
    assert_eq!(data.recent_projects[0].path, "a");
    assert_eq!(data.recent_projects[0].last_accessed, "2024-06-01T00:00:00Z");
    assert_eq!(data.recent_projects[1].path, "b");

    // A new path is appended, and the list stays capped at ten, keeping the
    // most recent.
    let mut data = data;
    for i in 0..12usize {
        let stamp = format!("2025-01-{:02}T00:00:00Z", i + 1);
        let path = format!("p{}", i);
        data = add_recent_project(data, recent(&path, &stamp), "1.2".to_string());
    }
    assert_eq!(data.recent_projects.len(), 10);
    assert_eq!(data.recent_projects[0].path, "p11");
    assert_eq!(data.recent_projects[0].last_accessed, "2025-01-12T00:00:00Z");
    assert_eq!(data.recent_projects[9].path, "p2");
    for w in data.recent_projects.windows(2) {
        assert!(w[1].last_accessed <= w[0].last_accessed);
    }
}

#[test]
fn rate_negotiation_prefers_quality_and_first_range() {
    // The first range supporting a preferred rate wins; within it the highest
    // preferred rate wins.
    let ranges = vec![(96000, 192000), (8000, 48000), (8000, 8000)];
    assert_eq!(pick_supported_rate(&ranges), Some((1, 48000)));
    // 44.1 kHz beats 32 kHz in preference order.
    let ranges = vec![(22050, 44100)];
    assert_eq!(pick_supported_rate(&ranges), Some((0, 44100)));
    // No overlap with any preferred rate: no configuration.
    let ranges = vec![(96000, 192000)];
    assert_eq!(pick_supported_rate(&ranges), None);
    assert_eq!(pick_supported_rate(&Vec::new()), None);
}

#[test]
fn wav_bytes_roundtrip_through_hound() {
    let samples: Vec<i16> = vec![0, 1, -1, 32767, -32768, 100, -100, 7];
    let bytes = utterance_wav_bytes(1, 16000, &samples).unwrap();
    assert_eq!(bytes.len(), 44 + 2 * samples.len());
    assert_eq!(&bytes[0..4], b"RIFF");
    assert_eq!(&bytes[8..12], b"WAVE");
    let reader = hound::WavReader::new(std::io::Cursor::new(bytes)).unwrap();
    let spec = reader.spec();
    assert_eq!(spec.channels, 1);
    assert_eq!(spec.sample_rate, 16000);
    assert_eq!(spec.bits_per_sample, 16);
    let decoded: Vec<i16> = reader.into_samples::<i16>().map(|s| s.unwrap()).collect();
    assert_eq!(decoded, samples);
}

#[test]
fn wav_bytes_rejects_unfinished_frames() {
    // Three samples cannot fill whole two-channel frames.
    let samples: Vec<i16> = vec![1, 2, 3];
    assert!(utterance_wav_bytes(2, 16000, &samples).is_err());
    assert!(utterance_wav_bytes(0, 16000, &samples).is_err());
    assert!(utterance_wav_bytes(1, 0, &samples).is_err());
    // Two channels with four samples is fine.
    let samples: Vec<i16> = vec![1, 2, 3, 4];
    assert!(utterance_wav_bytes(2, 16000, &samples).is_ok());
}
