use tunepipe::file_processor::{clean_filename, convert_to_mp3, plan_final_filename};

#[test]
fn test_clean_filename_removes_audio_hd() {
    let result = clean_filename("Song Name [Audio HD]");
    assert_eq!(result, "Song Name");
}

#[test]
fn test_clean_filename_removes_radio_mix() {
    let result = clean_filename("Song Name (Radio Mix)");
    assert_eq!(result, "Song Name");
}

#[test]
fn test_clean_filename_removes_official_video() {
    let result = clean_filename("Song Name (Official Video)");
    assert_eq!(result, "Song Name");
}

#[test]
fn test_clean_filename_removes_lyrics() {
    let result = clean_filename("Song Name (lyrics)");
    assert_eq!(result, "Song Name");
}

#[test]
fn test_clean_filename_removes_radio_edit() {
    let result = clean_filename("Song Name (Radio Edit)");
    assert_eq!(result, "Song Name");
}

#[test]
fn test_clean_filename_removes_high_quality() {
    let result = clean_filename("Song Name [High Quality]");
    assert_eq!(result, "Song Name");
}

#[test]
fn test_clean_filename_removes_official_music_video() {
    let result = clean_filename("Song Name (Official Music Video)");
    assert_eq!(result, "Song Name");
}

#[test]
fn test_clean_filename_removes_audio() {
    let result = clean_filename("Song Name (Audio)");
    assert_eq!(result, "Song Name");
}

#[test]
fn test_clean_filename_removes_clean_version() {
    let result = clean_filename("Song Name [Clean version]");
    assert_eq!(result, "Song Name");
}

#[test]
fn test_clean_filename_removes_visualizer() {
    let result = clean_filename("Song Name [visualizer]");
    assert_eq!(result, "Song Name");
}

#[test]
fn test_clean_filename_removes_multiple_patterns() {
    let result = clean_filename("Song Name [Audio HD] (Official Video)");
    assert_eq!(result, "Song Name");
}

#[test]
fn test_clean_filename_handles_case_insensitive() {
    let result = clean_filename("Song Name (LYRICS)");
    assert_eq!(result, "Song Name");
}

#[test]
fn test_clean_filename_handles_lowercase() {
    let result = clean_filename("Song Name (lyrics)");
    assert_eq!(result, "Song Name");
}

#[test]
fn test_clean_filename_trims_whitespace() {
    let result = clean_filename("   Song Name   ");
    assert_eq!(result, "Song Name");
}

#[test]
fn test_clean_filename_preserves_actual_text() {
    let result = clean_filename("Song Name with Meaningful Text");
    assert_eq!(result, "Song Name with Meaningful Text");
}

#[test]
fn test_clean_filename_handles_empty_string() {
    let result = clean_filename("");
    assert_eq!(result, "");
}

#[test]
fn test_clean_filename_removes_live() {
    let result = clean_filename("Song Name [Live]");
    assert_eq!(result, "Song Name");
}

#[test]
fn test_clean_filename_removes_studio() {
    let result = clean_filename("Song Name (Studio)");
    assert_eq!(result, "Song Name");
}

#[test]
fn test_clean_filename_removes_remastered() {
    let result = clean_filename("Song Name [Remastered]");
    assert_eq!(result, "Song Name");
}

#[test]
fn test_clean_filename_removes_remix() {
    let result = clean_filename("Song Name (Remix)");
    assert_eq!(result, "Song Name");
}

#[test]
fn test_clean_filename_removes_acoustic() {
    let result = clean_filename("Song Name [Acoustic]");
    assert_eq!(result, "Song Name");
}

#[test]
fn test_clean_filename_removes_extended() {
    let result = clean_filename("Song Name (Extended)");
    assert_eq!(result, "Song Name");
}

#[test]
fn test_clean_filename_complex_example() {
    let result = clean_filename("Artist Name - Song Title (Official Video) [Audio HD]");
    assert_eq!(result, "Artist Name - Song Title");
}

#[test]
fn test_clean_filename_removes_explicit() {
    let result = clean_filename("Song Name (Explicit)");
    assert_eq!(result, "Song Name");
}

#[test]
fn test_clean_filename_removes_instrumental() {
    let result = clean_filename("Song Name [Instrumental]");
    assert_eq!(result, "Song Name");
}

#[test]
fn test_convert_to_mp3_nonexistent_input_file() {
    let result = convert_to_mp3("/nonexistent/file.mp3", "/output/song.mp3", false);
    assert!(result.is_err());
    assert!(result.unwrap_err().contains("Input file does not exist"));
}

#[test]
fn test_convert_to_mp3_empty_input_path() {
    let result = convert_to_mp3("", "/output/song.mp3", false);
    assert!(result.is_err());
    assert!(result.unwrap_err().contains("Input file does not exist"));
}

#[test]
fn test_clean_filename_case_variants_agree() {
    let lower = clean_filename("X (lyrics)");
    let upper = clean_filename("X (LYRICS)");
    assert_eq!(lower, "X");
    assert_eq!(upper, "X");
    assert_eq!(lower, upper);
}

#[test]
fn test_clean_filename_collapses_inner_whitespace() {
    assert_eq!(clean_filename("  A   B  "), "A B");
}

#[test]
fn test_clean_filename_applied_twice_is_stable() {
    let once = clean_filename("  My Song (Official Video)  [Audio HD] ");
    let twice = clean_filename(&once);
    assert_eq!(once, twice);
    assert_eq!(once, "My Song");
}

#[test]
fn test_convert_to_mp3_existing_input_plans_arguments() {
    let args = convert_to_mp3("/tmp/in.webm", "/out/song.mp3", true).unwrap();
    assert_eq!(
        args,
        vec![
            "-i",
            "/tmp/in.webm",
            "-vn",
            "-acodec",
            "libmp3lame",
            "-q:a",
            "0",
            "-y",
            "/out/song.mp3"
        ]
    );
}

#[test]
fn test_plan_final_filename_strips_id_and_decorations() {
    let result = plan_final_filename("My Song (Official Video) [abc123defgh]", "abc123defgh");
    assert_eq!(result, "My Song.mp3");
}

#[test]
fn test_plan_final_filename_without_token() {
    let result = plan_final_filename("Plain Name", "abc123defgh");
    assert_eq!(result, "Plain Name.mp3");
}
