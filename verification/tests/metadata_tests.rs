use tunepipe::metadata::{
    parse_title_for_metadata, plan_tag_frames, tag_target_check, TagFrame, TrackMetadata,
};

#[test]
fn test_track_metadata_default() {
    let metadata = TrackMetadata::default();
    assert!(metadata.title.is_none());
    assert!(metadata.artist.is_none());
    assert!(metadata.album.is_none());
    assert!(metadata.year.is_none());
    assert!(metadata.genre.is_none());
}

#[test]
fn test_track_metadata_with_values() {
    let metadata = TrackMetadata {
        title: Some("Test Song".to_string()),
        artist: Some("Test Artist".to_string()),
        album: Some("Test Album".to_string()),
        year: Some("2024".to_string()),
        genre: Some("Pop".to_string()),
        track_number: Some("1".to_string()),
        album_artist: Some("Various Artists".to_string()),
        comment: Some("Downloaded".to_string()),
    };

    assert_eq!(metadata.title, Some("Test Song".to_string()));
    assert_eq!(metadata.artist, Some("Test Artist".to_string()));
    assert_eq!(metadata.album, Some("Test Album".to_string()));
}

#[test]
fn test_parse_title_for_metadata_with_dash() {
    let metadata = parse_title_for_metadata("Artist Name - Song Title");
    assert_eq!(metadata.artist, Some("Artist Name".to_string()));
    assert_eq!(metadata.title, Some("Song Title".to_string()));
}

#[test]
fn test_parse_title_for_metadata_with_em_dash() {
    let metadata = parse_title_for_metadata("Artist Name \u{2013} Song Title");
    assert_eq!(metadata.artist, Some("Artist Name".to_string()));
    assert_eq!(metadata.title, Some("Song Title".to_string()));
}

#[test]
fn test_parse_title_for_metadata_with_en_dash() {
    let metadata = parse_title_for_metadata("Artist Name \u{2014} Song Title");
    assert_eq!(metadata.artist, Some("Artist Name".to_string()));
    assert_eq!(metadata.title, Some("Song Title".to_string()));
}

#[test]
fn test_parse_title_for_metadata_with_colon() {
    let metadata = parse_title_for_metadata("Artist Name: Song Title");
    assert_eq!(metadata.artist, Some("Artist Name".to_string()));
    assert_eq!(metadata.title, Some("Song Title".to_string()));
}

#[test]
fn test_parse_title_for_metadata_plain_title() {
    let metadata = parse_title_for_metadata("Song Title Only");
    assert_eq!(metadata.title, Some("Song Title Only".to_string()));
    assert!(metadata.artist.is_none());
}

#[test]
fn test_parse_title_for_metadata_with_whitespace() {
    let metadata = parse_title_for_metadata("  Artist Name - Song Title  ");
    assert_eq!(metadata.artist, Some("Artist Name".to_string()));
    assert_eq!(metadata.title, Some("Song Title".to_string()));
}

#[test]
fn test_parse_title_for_metadata_complex_title() {
    let metadata = parse_title_for_metadata("The Beatles - Hey Jude");
    assert_eq!(metadata.artist, Some("The Beatles".to_string()));
    assert_eq!(metadata.title, Some("Hey Jude".to_string()));
}

#[test]
fn test_parse_title_for_metadata_basic() {
    let metadata = parse_title_for_metadata("The Beatles - Hey Jude");
    assert_eq!(metadata.artist, Some("The Beatles".to_string()));
    assert_eq!(metadata.title, Some("Hey Jude".to_string()));
}

#[test]
fn test_parse_title_for_metadata_no_artist() {
    let metadata = parse_title_for_metadata("Just a Song Title");
    assert_eq!(metadata.title, Some("Just a Song Title".to_string()));
    assert!(metadata.artist.is_none());
}

#[test]
fn test_parse_title_for_metadata_fallback_keeps_whole_title() {
    let metadata = parse_title_for_metadata("Just A Title");
    assert_eq!(metadata.title, Some("Just A Title".to_string()));
    assert!(metadata.artist.is_none());
}

#[test]
fn test_parse_title_for_metadata_rejects_overlong_artist() {
    let artist = "A".repeat(120);
    let input = format!("{} - Song", artist);
    let metadata = parse_title_for_metadata(&input);
    assert!(metadata.artist.is_none());
    assert_eq!(metadata.title, Some(input.trim().to_string()));
}

#[test]
fn test_tag_mp3_nonexistent_file() {
    let result = tag_target_check("/nonexistent/file.mp3", false);
    assert!(result.is_err());
    assert!(result.unwrap_err().contains("File does not exist"));
}

#[test]
fn test_tag_mp3_non_mp3_extension() {
    let result = tag_target_check("/path/to/file.mp4", true);
    assert!(result.is_err());
}

#[test]
fn test_tag_target_check_accepts_existing_mp3() {
    assert!(tag_target_check("/music/song.mp3", true).is_ok());
}

fn text_frame(frames: &[TagFrame], wanted_id: &str) -> Option<String> {
    for f in frames {
        if let TagFrame::Text { id, value } = f {
            if id.as_str() == wanted_id {
                return Some(value.clone());
            }
        }
    }
    None
}

#[test]
fn test_plan_tag_frames_full_record() {
    let metadata = TrackMetadata {
        title: Some("Test Song".to_string()),
        artist: Some("Test Artist".to_string()),
        album: Some("Test Album".to_string()),
        year: Some("2024".to_string()),
        genre: Some("Rock".to_string()),
        track_number: Some("1".to_string()),
        album_artist: Some("Various Artists".to_string()),
        comment: Some("Test comment".to_string()),
    };
    let frames = plan_tag_frames(&metadata);
    assert_eq!(frames.len(), 9);
    assert_eq!(text_frame(&frames, "TIT2"), Some("Test Song".to_string()));
    assert_eq!(text_frame(&frames, "TPE1"), Some("Test Artist".to_string()));
    assert_eq!(text_frame(&frames, "TALB"), Some("Test Album".to_string()));
    assert_eq!(text_frame(&frames, "TYER"), Some("2024".to_string()));
    assert_eq!(text_frame(&frames, "TDOR"), Some("2024".to_string()));
    assert_eq!(text_frame(&frames, "TCON"), Some("Rock".to_string()));
    assert_eq!(text_frame(&frames, "TRCK"), Some("1".to_string()));
    assert_eq!(text_frame(&frames, "TPE2"), Some("Various Artists".to_string()));
    match &frames[8] {
        TagFrame::Comment { lang, description, text } => {
            assert_eq!(lang.as_str(), "eng");
            assert_eq!(description.as_str(), "Downloaded from YouTube");
            assert_eq!(text.as_str(), "Test comment");
        }
        _ => panic!("last frame is not the comment"),
    }
}

#[test]
fn test_plan_tag_frames_skips_unparsable_year() {
    let metadata = TrackMetadata {
        year: Some("20x4".to_string()),
        ..TrackMetadata::default()
    };
    let frames = plan_tag_frames(&metadata);
    assert!(frames.is_empty());
}

#[test]
fn test_plan_tag_frames_absent_fields_write_nothing() {
    let frames = plan_tag_frames(&TrackMetadata::default());
    assert!(frames.is_empty());
}
