use tunepipe::youtube_client::{
    build_download_args, extract_downloaded_filename, parse_search_output, video_info_from_reply,
    SearchReply, VideoInfo,
};

#[test]
fn test_video_info_default_values() {
    let video_info = VideoInfo {
        id: "test123".to_string(),
        title: String::new(),
        url: "https://www.youtube.com/watch?v=test123".to_string(),
        thumbnail_url: None,
        uploader: None,
        duration_seconds: None,
        upload_date: None,
    };

    assert_eq!(video_info.id, "test123");
    assert!(video_info.title.is_empty());
    assert!(video_info.url.contains("test123"));
    assert!(video_info.thumbnail_url.is_none());
    assert!(video_info.uploader.is_none());
}

#[test]
fn test_extract_downloaded_filename_mp3() {
    let output = "[ExtractAudio] Destination: /path/to/file.mp3";
    let result = extract_downloaded_filename(output);
    assert_eq!(result, Some("/path/to/file.mp3".to_string()));
}

#[test]
fn test_extract_downloaded_filename_merger() {
    let output = "[Merger] Merging formats into C:\\Users\\test\\file.mp3";
    let result = extract_downloaded_filename(output);
    assert_eq!(result, Some("C:\\Users\\test\\file.mp3".to_string()));
}

#[test]
fn test_extract_downloaded_filename_info() {
    let output = "[info] /downloads/song.mp3";
    let result = extract_downloaded_filename(output);
    assert_eq!(result, Some("/downloads/song.mp3".to_string()));
}

#[test]
fn test_extract_downloaded_filename_no_match() {
    let output = "Some random output without filename";
    let result = extract_downloaded_filename(output);
    assert_eq!(result, None);
}

#[test]
fn test_extract_downloaded_filename_with_spaces() {
    let output = "[ExtractAudio] Destination: /path/with spaces/My Song Name.mp3";
    let result = extract_downloaded_filename(output);
    assert_eq!(
        result,
        Some("/path/with spaces/My Song Name.mp3".to_string())
    );
}

#[test]
fn test_extract_downloaded_filename_with_special_chars() {
    let output = "[info] /music/Artist_-_Title_(2024).mp3";
    let result = extract_downloaded_filename(output);
    assert_eq!(result, Some("/music/Artist_-_Title_(2024).mp3".to_string()));
}

#[test]
fn test_extract_downloaded_filename_priority_merger_over_info() {
    let output = "[Merger] Merging formats into /path/merged.mp3\n[info] /path/original.mp3";
    let result = extract_downloaded_filename(output);
    assert_eq!(result, Some("/path/merged.mp3".to_string()));
}

#[test]
fn test_video_info_clone() {
    let video_info = VideoInfo {
        id: "test123".to_string(),
        title: "Test".to_string(),
        url: "https://youtube.com/watch?v=test123".to_string(),
        thumbnail_url: Some("https://example.com/thumb.jpg".to_string()),
        uploader: Some("TestUploader".to_string()),
        duration_seconds: Some(200),
        upload_date: Some("2024-02-01".to_string()),
    };
    let cloned = video_info.clone();
    assert_eq!(video_info.id, cloned.id);
    assert_eq!(video_info.title, cloned.title);
    assert_eq!(video_info.url, cloned.url);
    assert_eq!(video_info.thumbnail_url, cloned.thumbnail_url);
    assert_eq!(video_info.uploader, cloned.uploader);
    assert_eq!(video_info.duration_seconds, cloned.duration_seconds);
    assert_eq!(video_info.upload_date, cloned.upload_date);
}

#[test]
fn test_video_info_debug_format() {
    let video_info = VideoInfo {
        id: "abc".to_string(),
        title: "Test Video".to_string(),
        url: "https://youtube.com/watch?v=abc".to_string(),
        thumbnail_url: None,
        uploader: None,
        duration_seconds: None,
        upload_date: None,
    };
    let debug = format!("{:?}", video_info);
    assert!(debug.contains("abc"));
    assert!(debug.contains("Test Video"));
}

fn empty_reply() -> SearchReply {
    SearchReply {
        id: None,
        title: None,
        thumbnail: None,
        first_thumbnail_url: None,
        uploader: None,
        uploader_name: None,
        duration: None,
        duration_seconds: None,
        upload_date: None,
    }
}

#[test]
fn test_video_info_from_reply_requires_id() {
    let result = video_info_from_reply(empty_reply());
    assert!(result.is_err());
    assert_eq!(result.unwrap_err(), "No video ID in response");
}

#[test]
fn test_video_info_from_reply_applies_fallbacks() {
    let reply = SearchReply {
        id: Some("abc123defgh".to_string()),
        title: None,
        thumbnail: None,
        first_thumbnail_url: Some("https://example.com/t0.jpg".to_string()),
        uploader: None,
        uploader_name: Some("AltUploader".to_string()),
        duration: None,
        duration_seconds: Some(180),
        upload_date: Some("2024-01-01".to_string()),
    };
    let info = video_info_from_reply(reply).unwrap();
    assert_eq!(info.id, "abc123defgh");
    assert_eq!(info.title, "");
    assert_eq!(info.url, "https://www.youtube.com/watch?v=abc123defgh");
    assert_eq!(
        info.thumbnail_url,
        Some("https://example.com/t0.jpg".to_string())
    );
    assert_eq!(info.uploader, Some("AltUploader".to_string()));
    assert_eq!(info.duration_seconds, Some(180));
    assert_eq!(info.upload_date, Some("2024-01-01".to_string()));
}

#[test]
fn test_video_info_from_reply_prefers_primary_keys() {
    let reply = SearchReply {
        id: Some("abc123defgh".to_string()),
        title: Some("A Song".to_string()),
        thumbnail: Some("https://example.com/main.jpg".to_string()),
        first_thumbnail_url: Some("https://example.com/t0.jpg".to_string()),
        uploader: Some("MainUploader".to_string()),
        uploader_name: Some("AltUploader".to_string()),
        duration: Some(120),
        duration_seconds: Some(999),
        upload_date: None,
    };
    let info = video_info_from_reply(reply).unwrap();
    assert_eq!(info.title, "A Song");
    assert_eq!(
        info.thumbnail_url,
        Some("https://example.com/main.jpg".to_string())
    );
    assert_eq!(info.uploader, Some("MainUploader".to_string()));
    assert_eq!(info.duration_seconds, Some(120));
}

#[test]
fn test_parse_search_output_reads_first_json_line() {
    let stdout = "{\"id\":\"abc123defgh\",\"title\":\"Test Video\",\"uploader\":\"Someone\",\"duration\":180}\n{\"id\":\"zzzzzzzzzzz\"}\n";
    let result = parse_search_output(stdout).unwrap().unwrap();
    assert_eq!(result.id, "abc123defgh");
    assert_eq!(result.title, "Test Video");
    assert_eq!(result.url, "https://www.youtube.com/watch?v=abc123defgh");
    assert_eq!(result.uploader, Some("Someone".to_string()));
    assert_eq!(result.duration_seconds, Some(180));
}

#[test]
fn test_parse_search_output_thumbnail_array_fallback() {
    let stdout = "{\"id\":\"abc123defgh\",\"thumbnails\":[{\"url\":\"https://example.com/t0.jpg\"},{\"url\":\"https://example.com/t1.jpg\"}]}";
    let result = parse_search_output(stdout).unwrap().unwrap();
    assert_eq!(
        result.thumbnail_url,
        Some("https://example.com/t0.jpg".to_string())
    );
}

#[test]
fn test_parse_search_output_empty_is_none() {
    assert!(parse_search_output("").unwrap().is_none());
}

#[test]
fn test_parse_search_output_non_json_is_error() {
    let result = parse_search_output("WARNING: nothing found\n");
    assert!(result.is_err());
    assert_eq!(result.unwrap_err(), "Search reply was not valid JSON");
}

#[test]
fn test_parse_search_output_json_without_id_is_error() {
    let result = parse_search_output("{\"title\":\"No Id Here\"}");
    assert!(result.is_err());
    assert_eq!(result.unwrap_err(), "No video ID in response");
}

#[test]
fn test_build_download_args_without_transcoder_location() {
    let args = build_download_args("abc123defgh", "/music", None);
    assert_eq!(
        args,
        vec![
            "--format",
            "bestaudio[ext=m4a]/bestaudio[ext=webm]/bestaudio",
            "--output",
            "/music/%(title)s [%(id)s].%(ext)s",
            "--extract-audio",
            "--audio-format",
            "mp3",
            "--audio-quality",
            "0",
            "--no-playlist",
            "--no-warnings",
            "--progress",
            "https://www.youtube.com/watch?v=abc123defgh"
        ]
    );
}

#[test]
fn test_build_download_args_with_transcoder_location() {
    let args = build_download_args("abc123defgh", "/music", Some("/opt/tools/ffmpeg"));
    assert_eq!(args.len(), 15);
    assert_eq!(args[12], "--ffmpeg-location");
    assert_eq!(args[13], "/opt/tools/ffmpeg");
    assert_eq!(args[14], "https://www.youtube.com/watch?v=abc123defgh");
}
