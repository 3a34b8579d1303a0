use std::io::Write;

use tunepipe::provision::{
    candidate_filenames, check_ytdlp_outcome, extract_ffmpeg_from_zip, ffmpeg_filename,
    ffmpeg_zip_url, get_ytdlp_command_outcome, ytdlp_download_url, ytdlp_filename,
    ytdlp_http_failure, ytdlp_install_event, zip_entry_is_ffmpeg, InstallMilestone, Platform,
};

#[test]
fn test_ffmpeg_filename_per_platform() {
    assert_eq!(ffmpeg_filename(Platform::WindowsX64), "ffmpeg.exe");
    assert_eq!(ffmpeg_filename(Platform::LinuxX64), "ffmpeg");
    assert_eq!(ffmpeg_filename(Platform::MacosArm64), "ffmpeg");
}

#[test]
fn test_candidate_filenames_per_platform() {
    assert_eq!(
        candidate_filenames(Platform::WindowsX64),
        vec!["ffmpeg.exe", "ffmpeg.bat", "ffmpeg.cmd"]
    );
    assert_eq!(candidate_filenames(Platform::LinuxArm64), vec!["ffmpeg"]);
}

#[test]
fn test_ffmpeg_zip_url_per_platform() {
    assert_eq!(
        ffmpeg_zip_url(Platform::LinuxX64).unwrap(),
        "https://github.com/ffbinaries/ffbinaries-prebuilt/releases/download/v6.1/ffmpeg-6.1-linux-64.zip"
    );
    assert_eq!(
        ffmpeg_zip_url(Platform::WindowsX64).unwrap(),
        "https://github.com/ffbinaries/ffbinaries-prebuilt/releases/download/v6.1/ffmpeg-6.1-win-64.zip"
    );
    assert_eq!(
        ffmpeg_zip_url(Platform::MacosX64).unwrap(),
        ffmpeg_zip_url(Platform::MacosArm64).unwrap()
    );
    let err = ffmpeg_zip_url(Platform::Other).unwrap_err();
    assert_eq!(err, "Unsupported platform for automatic FFmpeg download");
}

#[test]
fn test_ytdlp_names_and_urls() {
    assert_eq!(ytdlp_filename(Platform::WindowsX64), "yt-dlp.exe");
    assert_eq!(ytdlp_filename(Platform::LinuxX64), "yt-dlp");
    assert_eq!(
        ytdlp_download_url(Platform::WindowsX64),
        "https://github.com/yt-dlp/yt-dlp/releases/latest/download/yt-dlp.exe"
    );
    assert_eq!(
        ytdlp_download_url(Platform::MacosX64),
        "https://github.com/yt-dlp/yt-dlp/releases/latest/download/yt-dlp"
    );
}

#[test]
fn test_zip_entry_is_ffmpeg_matches_paths() {
    assert!(zip_entry_is_ffmpeg("ffmpeg", Platform::LinuxX64));
    assert!(zip_entry_is_ffmpeg("bin/ffmpeg", Platform::LinuxX64));
    assert!(zip_entry_is_ffmpeg("tools\\bin\\ffmpeg.exe", Platform::WindowsX64));
    assert!(!zip_entry_is_ffmpeg("ffmpeg.txt", Platform::LinuxX64));
    assert!(!zip_entry_is_ffmpeg("notffmpeg", Platform::LinuxX64));
    assert!(!zip_entry_is_ffmpeg("ffmpeg", Platform::WindowsX64));
}

#[test]
fn test_check_ytdlp_outcomes() {
    assert_eq!(
        check_ytdlp_outcome("/data/yt-dlp", true).unwrap(),
        "/data/yt-dlp"
    );
    assert_eq!(
        check_ytdlp_outcome("/data/yt-dlp", false).unwrap_err(),
        "yt-dlp not installed"
    );
    assert_eq!(
        get_ytdlp_command_outcome("/data/yt-dlp", true).unwrap(),
        "/data/yt-dlp"
    );
    assert_eq!(
        get_ytdlp_command_outcome("/data/yt-dlp", false).unwrap_err(),
        "yt-dlp not installed. Please wait for it to download."
    );
}

#[test]
fn test_ytdlp_install_events() {
    let (status, message) = ytdlp_install_event(&InstallMilestone::AlreadyInstalled);
    assert_eq!(status, "already_installed");
    assert_eq!(message, "yt-dlp already installed");

    let (status, message) = ytdlp_install_event(&InstallMilestone::DownloadSized(1048576));
    assert_eq!(status, "downloading");
    assert_eq!(message, "Downloading 1048576 bytes...");

    let (status, message) = ytdlp_install_event(&InstallMilestone::Complete);
    assert_eq!(status, "complete");
    assert_eq!(message, "yt-dlp installed successfully");
}

#[test]
fn test_ytdlp_http_failure_messages() {
    let (err, event) = ytdlp_http_failure("404 Not Found");
    assert_eq!(err, "Failed to download yt-dlp: HTTP 404 Not Found");
    assert_eq!(event, "HTTP error: 404 Not Found");
}

fn build_test_zip(entries: &[(&str, &[u8])]) -> Vec<u8> {
    let mut writer = zip::ZipWriter::new(std::io::Cursor::new(Vec::new()));
    let options: zip::write::SimpleFileOptions = Default::default();
    for (name, data) in entries {
        writer.start_file(name.to_string(), options).unwrap();
        writer.write_all(data).unwrap();
    }
    writer.finish().unwrap().into_inner()
}

#[test]
fn test_extract_ffmpeg_from_zip_picks_the_executable() {
    let bytes = build_test_zip(&[
        ("README.txt", b"docs"),
        ("bin/ffmpeg", b"\x7fELF fake transcoder"),
        ("bin/ffprobe", b"other tool"),
    ]);
    let extracted = extract_ffmpeg_from_zip(&bytes, Platform::LinuxX64).unwrap();
    assert_eq!(extracted, b"\x7fELF fake transcoder");
}

#[test]
fn test_extract_ffmpeg_from_zip_takes_the_first_match() {
    let bytes = build_test_zip(&[
        ("a/ffmpeg", b"first copy"),
        ("b/ffmpeg", b"second copy"),
    ]);
    let extracted = extract_ffmpeg_from_zip(&bytes, Platform::LinuxX64).unwrap();
    assert_eq!(extracted, b"first copy");
}

#[test]
fn test_extract_ffmpeg_from_zip_without_the_executable() {
    let bytes = build_test_zip(&[("README.txt", b"docs")]);
    let err = extract_ffmpeg_from_zip(&bytes, Platform::LinuxX64).unwrap_err();
    assert_eq!(err, "FFmpeg binary not found inside zip");
}

#[test]
fn test_extract_ffmpeg_from_zip_rejects_garbage() {
    let err = extract_ffmpeg_from_zip(b"not a zip archive", Platform::LinuxX64).unwrap_err();
    assert!(err.contains("Invalid FFmpeg zip"));
}
