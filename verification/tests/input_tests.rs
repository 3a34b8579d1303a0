use tunepipe::{
    construct_search_query, extract_video_id, is_youtube_url, parse_csv_command, process_input,
    AudioMode, InputType,
};

#[test]
fn test_is_youtube_url_with_standard_url() {
    assert!(is_youtube_url("https://www.youtube.com/watch?v=dQw4w9WgXcQ"));
}

#[test]
fn test_is_youtube_url_with_shortened_url() {
    assert!(is_youtube_url("https://youtu.be/dQw4w9WgXcQ"));
}

#[test]
fn test_is_youtube_url_with_shorts_url() {
    assert!(is_youtube_url("https://www.youtube.com/shorts/dQw4w9WgXcQ"));
}

#[test]
fn test_is_youtube_url_with_non_url() {
    assert!(!is_youtube_url("Just a search query"));
    assert!(!is_youtube_url(""));
}

#[test]
fn test_extract_video_id_from_standard_url() {
    let result = extract_video_id("https://www.youtube.com/watch?v=dQw4w9WgXcQ");
    assert_eq!(result, Some("dQw4w9WgXcQ".to_string()));
}

#[test]
fn test_extract_video_id_from_shortened_url() {
    let result = extract_video_id("https://youtu.be/dQw4w9WgXcQ");
    assert_eq!(result, Some("dQw4w9WgXcQ".to_string()));
}

#[test]
fn test_extract_video_id_from_shorts_url() {
    let result = extract_video_id("https://www.youtube.com/shorts/dQw4w9WgXcQ");
    assert_eq!(result, Some("dQw4w9WgXcQ".to_string()));
}

#[test]
fn test_extract_video_id_with_invalid_url() {
    let result = extract_video_id("https://example.com/video");
    assert_eq!(result, None);
}

#[test]
fn test_construct_search_query_official() {
    let result = construct_search_query("Hello World", &AudioMode::Official);
    assert_eq!(result, "Hello World official audio");
}

#[test]
fn test_construct_search_query_raw() {
    let result = construct_search_query("Hello World", &AudioMode::Raw);
    assert_eq!(result, "Hello World raw audio");
}

#[test]
fn test_construct_search_query_clean() {
    let result = construct_search_query("Hello World", &AudioMode::Clean);
    assert_eq!(result, "Hello World clean audio");
}

#[test]
fn test_construct_search_query_trims_whitespace() {
    let result = construct_search_query("  Hello World  ", &AudioMode::Official);
    assert_eq!(result, "Hello World official audio");
}

#[test]
fn test_process_input_with_urls() {
    let input = "https://www.youtube.com/watch?v=abc123defgh\nhttps://youtu.be/xyz789abcde";
    let result = process_input(input, AudioMode::Official).unwrap();

    assert_eq!(result.total_count, 2);
    assert_eq!(result.url_count, 2);
    assert_eq!(result.search_count, 0);
    assert_eq!(result.items[0].input_type, InputType::Url);
    assert_eq!(result.items[0].video_id, Some("abc123defgh".to_string()));
    assert_eq!(result.items[1].video_id, Some("xyz789abcde".to_string()));
}

#[test]
fn test_process_input_with_search_queries() {
    let input = "Song One\nSong Two";
    let result = process_input(input, AudioMode::Official).unwrap();

    assert_eq!(result.total_count, 2);
    assert_eq!(result.url_count, 0);
    assert_eq!(result.search_count, 2);
    assert_eq!(result.items[0].input_type, InputType::SearchQuery);
    assert_eq!(result.items[0].processed_query, "Song One official audio");
    assert_eq!(result.items[1].processed_query, "Song Two official audio");
}

#[test]
fn test_process_input_with_mixed_input() {
    let input = "https://www.youtube.com/watch?v=abc123defgh\nSong One\nhttps://youtu.be/xyz789abcde";
    let result = process_input(input, AudioMode::Clean).unwrap();

    assert_eq!(result.total_count, 3);
    assert_eq!(result.url_count, 2);
    assert_eq!(result.search_count, 1);
    assert_eq!(result.items[1].processed_query, "Song One clean audio");
}

#[test]
fn test_process_input_filters_empty_lines() {
    let input = "\nhttps://www.youtube.com/watch?v=abc123defgh\n\nSong One\n";
    let result = process_input(input, AudioMode::Official).unwrap();

    assert_eq!(result.total_count, 2);
}

#[test]
fn test_process_input_with_empty_input() {
    let input = "";
    let result = process_input(input, AudioMode::Official).unwrap();

    assert_eq!(result.total_count, 0);
    assert_eq!(result.url_count, 0);
    assert_eq!(result.search_count, 0);
}

#[test]
fn test_process_input_with_only_whitespace_lines() {
    let input = "   \n\n   \n\t\n   ";
    let result = process_input(input, AudioMode::Official).unwrap();

    assert_eq!(result.total_count, 0);
}

#[test]
fn test_process_input_search_query_with_special_characters() {
    let input = "Song & Dance\nRock n Roll";
    let result = process_input(input, AudioMode::Clean).unwrap();

    assert_eq!(result.total_count, 2);
    assert_eq!(result.search_count, 2);
    assert_eq!(result.items[0].processed_query, "Song & Dance clean audio");
    assert_eq!(result.items[1].processed_query, "Rock n Roll clean audio");
}

#[test]
fn test_process_input_handles_long_video_ids() {
    let input = "https://www.youtube.com/watch?v=abcdefghijk";
    let result = process_input(input, AudioMode::Official).unwrap();

    assert_eq!(result.total_count, 1);
    assert_eq!(result.items[0].video_id, Some("abcdefghijk".to_string()));
}

#[test]
fn test_parse_csv_command_appends_mode_suffix() {
    let csv_content = "Artist Name(s),Track Name\nThe Beatles,Hey Jude";
    let result = parse_csv_command(csv_content, AudioMode::Official).unwrap();

    assert_eq!(result.success_count, 1);
    assert_eq!(
        result.tracks[0].search_query,
        "The Beatles - Hey Jude official audio"
    );
}

#[test]
fn test_parse_csv_command_keeps_tallies_and_errors() {
    let csv_content = "Artist Name(s),Track Name,Album Name\n,,Some Album\nQueen,One Vision,";
    let result = parse_csv_command(csv_content, AudioMode::Raw).unwrap();

    assert_eq!(result.total_count, 2);
    assert_eq!(result.success_count, 1);
    assert_eq!(result.error_count, 1);
    assert!(result.errors[0].contains("Missing both"));
    assert_eq!(result.tracks[0].search_query, "Queen - One Vision raw audio");
}

#[test]
fn test_end_to_end_csv_tally() {
    let csv_content = "Artist Name(s),Track Name\nThe Beatles,Hey Jude\nQueen,One Vision\nOasis,Wonderwall\n,";
    let result = tunepipe::csv_parser::parse_csv_content(csv_content).unwrap();

    assert_eq!(result.success_count, 3);
    assert_eq!(result.error_count, 1);
    assert_eq!(result.total_count, 4);
    assert_eq!(result.tracks.len() + result.errors.len(), result.total_count);
}

#[test]
fn test_header_fuzzy_match_substring() {
    let headers = vec!["Artist".to_string()];
    let idx = tunepipe::csv_parser::find_column_index(&headers, "Artist Name(s)");
    assert_eq!(idx, Some(0));
}

#[test]
fn test_header_fuzzy_match_row_numbers_in_errors() {
    let csv_content = "Artist Name(s),Track Name\nThe Beatles,Hey Jude\n,";
    let result = tunepipe::csv_parser::parse_csv_content(csv_content).unwrap();
    assert_eq!(result.error_count, 1);
    assert!(result.errors[0].starts_with("Row 3:"));
}
