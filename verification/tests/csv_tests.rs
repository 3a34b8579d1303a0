use tunepipe::csv_parser::{normalize_header, parse_csv_content, validate_csv_headers};

#[test]
fn test_parse_csv_content_with_valid_data() {
    let csv_content = r#"Artist Name(s),Track Name,Album Name,Artist Genres,Album Release Date,BPM/Tempo
The Beatles,Hey Jude,Abbey Road,rock,1968,140
Queen,Bohemian A Night At The Opera,rock,1975,145
Led Zeppelin,Stairway To Heaven,Led Zeppelin IV,rock,1971,146"#;

    let result = parse_csv_content(csv_content).unwrap();

    assert_eq!(result.total_count, 3);
    assert_eq!(result.success_count, 3);
    assert_eq!(result.error_count, 0);
    assert_eq!(result.tracks.len(), 3);

    assert_eq!(
        result.tracks[0].metadata.artist_names,
        Some("The Beatles".to_string())
    );
    assert_eq!(
        result.tracks[0].metadata.track_name,
        Some("Hey Jude".to_string())
    );
    assert_eq!(
        result.tracks[0].metadata.album_name,
        Some("Abbey Road".to_string())
    );
    assert_eq!(result.tracks[0].search_query, "The Beatles - Hey Jude");

    assert_eq!(
        result.tracks[1].metadata.artist_names,
        Some("Queen".to_string())
    );
    assert_eq!(
        result.tracks[1].metadata.track_name,
        Some("Bohemian A Night At The Opera".to_string())
    );
    assert_eq!(
        result.tracks[1].search_query,
        "Queen - Bohemian A Night At The Opera"
    );
}

#[test]
fn test_parse_csv_content_with_missing_columns() {
    let csv_content = r#"Artist Name(s),Track Name
The Beatles,Hey Jude"#;

    let result = parse_csv_content(csv_content).unwrap();

    assert_eq!(result.total_count, 1);
    assert_eq!(result.success_count, 1);
    assert_eq!(result.tracks[0].metadata.album_name, None);
    assert_eq!(result.tracks[0].metadata.artist_genres, None);
}

#[test]
fn test_parse_csv_content_with_missing_required_fields() {
    let csv_content = r#"Artist Name(s),Track Name,Album Name
,,"Abbey Road""#;

    let result = parse_csv_content(csv_content).unwrap();

    assert_eq!(result.success_count, 0);
    assert_eq!(result.error_count, 1);
    assert!(result.errors[0].contains("Missing both"));
}

#[test]
fn test_parse_csv_content_with_only_track_name() {
    let csv_content = r#"Artist Name(s),Track Name,Album Name
,Hey Jude,Abbey Road"#;

    let result = parse_csv_content(csv_content).unwrap();

    assert_eq!(result.success_count, 1);
    assert_eq!(result.error_count, 0);
    assert_eq!(result.tracks[0].search_query, "Hey Jude");
}

#[test]
fn test_parse_csv_content_with_only_artist_name() {
    let csv_content = r#"Artist Name(s),Track Name,Album Name
The Beatles,,Abbey Road"#;

    let result = parse_csv_content(csv_content).unwrap();

    assert_eq!(result.success_count, 1);
    assert_eq!(result.error_count, 0);
    assert_eq!(result.tracks[0].search_query, "The Beatles");
}

#[test]
fn test_parse_csv_content_with_empty_rows() {
    let csv_content = r#"Artist Name(s),Track Name,Album Name
The Beatles,Hey Jude,Abbey Road

Queen,Bohemian A Night At The Opera,A Night At The Opera"#;

    let result = parse_csv_content(csv_content).unwrap();

    assert_eq!(result.success_count, 2);
    assert_eq!(result.error_count, 0);
}

#[test]
fn test_parse_csv_content_with_special_characters() {
    let csv_content = r#"Artist Name(s),Track Name,Album Name
Artist & Band,Song "Title" (Remix),Greatest Hits"#;

    let result = parse_csv_content(csv_content).unwrap();

    assert_eq!(result.success_count, 1);
    assert_eq!(
        result.tracks[0].metadata.track_name,
        Some("Song \"Title\" (Remix)".to_string())
    );
}

#[test]
fn test_parse_csv_content_handles_missing_header_row() {
    let csv_content = r#"Artist Name(s),Track Name"#;

    let result = parse_csv_content(csv_content).unwrap();

    assert_eq!(result.success_count, 0);
    assert_eq!(result.error_count, 0);
    assert_eq!(result.tracks.len(), 0);
}

#[test]
fn test_validate_csv_headers_finds_expected_headers() {
    let csv_content = r#"Artist Name(s),Track Name,Album Name,Artist Genres,Album Release Date,BPM/Tempo
The Beatles,Hey Jude,Abbey Road,rock,1968,140"#;

    let found = validate_csv_headers(csv_content).unwrap();

    assert_eq!(found.len(), 6);
    assert!(found.contains(&"Artist Name(s)".to_string()));
    assert!(found.contains(&"Track Name".to_string()));
    assert!(found.contains(&"Album Name".to_string()));
}

#[test]
fn test_validate_csv_headers_with_partial_match() {
    let csv_content = r#"Artist,Track,Album,Genres,Release Date,Tempo
The Beatles,Hey Jude,Abbey Road,rock,1968,140"#;

    let found = validate_csv_headers(csv_content).unwrap();

    assert!(found.len() > 0);
}

#[test]
fn test_normalize_header_various_formats() {
    assert_eq!(normalize_header("Artist Name(s)"), "artist_names");
    assert_eq!(normalize_header("BPM/Tempo"), "bpm_tempo");
    assert_eq!(normalize_header("Album Release Date"), "album_release_date");
}

#[test]
fn test_parse_csv_content_with_duplicate_artists() {
    let csv_content = r#"Artist Name(s),Track Name,Album Name
Artist One & Artist Two,Great Song,Great Album
Artist One,Solo Song,Great Album"#;

    let result = parse_csv_content(csv_content).unwrap();

    assert_eq!(result.success_count, 2);
    assert_eq!(
        result.tracks[0].metadata.artist_names,
        Some("Artist One & Artist Two".to_string())
    );
    assert_eq!(
        result.tracks[0].search_query,
        "Artist One & Artist Two - Great Song"
    );
}
