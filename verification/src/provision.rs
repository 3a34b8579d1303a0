//! Decision logic of the tool provisioner: per-platform executable names
//! and download sources for the transcoder and the downloader tool,
//! selection of the transcoder inside its release archive, and the status
//! events and outcomes of an installation.
use vstd::prelude::*;
use vstd::string::StringExecFns;

use crate::text::{
    chars_of, check_ends_with, check_match_at, dec_str, ends_with_spec, u64_to_string,
};

verus! {

/// The host platforms the provisioner can tell apart; `Other` has no
/// download source.
#[derive(Debug, Clone, Copy, PartialEq, Eq, Structural)]
pub enum Platform {
    WindowsX64,
    LinuxX64,
    LinuxArm64,
    MacosX64,
    MacosArm64,
    Other,
}

pub open spec fn is_windows(p: Platform) -> bool {
    p is WindowsX64
}

/// The transcoder's executable name on the platform.
pub open spec fn ffmpeg_filename_spec(p: Platform) -> Seq<char> {
    if is_windows(p) {
        "ffmpeg.exe"@
    } else {
        "ffmpeg"@
    }
}

pub fn ffmpeg_filename(platform: Platform) -> (r: &'static str)
    ensures
        r@ == ffmpeg_filename_spec(platform),
{
    match platform {
        Platform::WindowsX64 => "ffmpeg.exe",
        _ => "ffmpeg",
    }
}

/// The pinned transcoder version; the private install directory is keyed
/// by it, so raising it invalidates older installs by moving the path.
pub fn ffmpeg_pinned_version() -> (r: &'static str)
    ensures
        r@ == "6.1"@,
{
    "6.1"
}

/// The executable names searched for on the host's search path.
pub open spec fn candidate_filenames_spec(p: Platform) -> Seq<Seq<char>> {
    if is_windows(p) {
        seq!["ffmpeg.exe"@, "ffmpeg.bat"@, "ffmpeg.cmd"@]
    } else {
        seq!["ffmpeg"@]
    }
}

pub fn candidate_filenames(platform: Platform) -> (r: Vec<String>)
    ensures
        r.deep_view() == candidate_filenames_spec(platform),
{
    let mut r: Vec<String> = Vec::new();
    match platform {
        Platform::WindowsX64 => {
            r.push(String::from_str("ffmpeg.exe"));
            r.push(String::from_str("ffmpeg.bat"));
            r.push(String::from_str("ffmpeg.cmd"));
        },
        _ => {
            r.push(String::from_str("ffmpeg"));
        },
    }
    proof {
        assert(r.deep_view() =~~= candidate_filenames_spec(platform));
    }
    r
}

/// The transcoder archive URL for the platform, where one exists.
pub open spec fn ffmpeg_zip_url_spec(p: Platform) -> Result<Seq<char>, Seq<char>> {
    match p {
        Platform::WindowsX64 => Ok(
            "https://github.com/ffbinaries/ffbinaries-prebuilt/releases/download/v6.1/ffmpeg-6.1-win-64.zip"@,
        ),
        Platform::LinuxX64 => Ok(
            "https://github.com/ffbinaries/ffbinaries-prebuilt/releases/download/v6.1/ffmpeg-6.1-linux-64.zip"@,
        ),
        Platform::LinuxArm64 => Ok(
            "https://github.com/ffbinaries/ffbinaries-prebuilt/releases/download/v6.1/ffmpeg-6.1-linux-arm-64.zip"@,
        ),
        Platform::MacosX64 => Ok(
            "https://github.com/ffbinaries/ffbinaries-prebuilt/releases/download/v6.1/ffmpeg-6.1-macos-64.zip"@,
        ),
        Platform::MacosArm64 => Ok(
            "https://github.com/ffbinaries/ffbinaries-prebuilt/releases/download/v6.1/ffmpeg-6.1-macos-64.zip"@,
        ),
        Platform::Other => Err("Unsupported platform for automatic FFmpeg download"@),
    }
}

/// The download source of the transcoder archive; platforms without one are
/// rejected.
pub fn ffmpeg_zip_url(platform: Platform) -> (r: Result<String, String>)
    ensures
        (r is Ok) == (ffmpeg_zip_url_spec(platform) is Ok),
        r is Ok ==> r->Ok_0@ == ffmpeg_zip_url_spec(platform)->Ok_0,
        r is Err ==> r->Err_0@ == ffmpeg_zip_url_spec(platform)->Err_0,
{
    match platform {
        Platform::WindowsX64 => Ok(
            String::from_str(
                "https://github.com/ffbinaries/ffbinaries-prebuilt/releases/download/v6.1/ffmpeg-6.1-win-64.zip",
            ),
        ),
        Platform::LinuxX64 => Ok(
            String::from_str(
                "https://github.com/ffbinaries/ffbinaries-prebuilt/releases/download/v6.1/ffmpeg-6.1-linux-64.zip",
            ),
        ),
        Platform::LinuxArm64 => Ok(
            String::from_str(
                "https://github.com/ffbinaries/ffbinaries-prebuilt/releases/download/v6.1/ffmpeg-6.1-linux-arm-64.zip",
            ),
        ),
        Platform::MacosX64 => Ok(
            String::from_str(
                "https://github.com/ffbinaries/ffbinaries-prebuilt/releases/download/v6.1/ffmpeg-6.1-macos-64.zip",
            ),
        ),
        Platform::MacosArm64 => Ok(
            String::from_str(
                "https://github.com/ffbinaries/ffbinaries-prebuilt/releases/download/v6.1/ffmpeg-6.1-macos-64.zip",
            ),
        ),
        Platform::Other => Err(
            String::from_str("Unsupported platform for automatic FFmpeg download"),
        ),
    }
}

/// The downloader tool's executable name on the platform.
pub open spec fn ytdlp_filename_spec(p: Platform) -> Seq<char> {
    if is_windows(p) {
        "yt-dlp.exe"@
    } else {
        "yt-dlp"@
    }
}

pub fn ytdlp_filename(platform: Platform) -> (r: &'static str)
    ensures
        r@ == ytdlp_filename_spec(platform),
{
    match platform {
        Platform::WindowsX64 => "yt-dlp.exe",
        _ => "yt-dlp",
    }
}

/// The downloader tool's latest-release download source on the platform.
pub open spec fn ytdlp_download_url_spec(p: Platform) -> Seq<char> {
    if is_windows(p) {
        "https://github.com/yt-dlp/yt-dlp/releases/latest/download/yt-dlp.exe"@
    } else {
        "https://github.com/yt-dlp/yt-dlp/releases/latest/download/yt-dlp"@
    }
}

pub fn ytdlp_download_url(platform: Platform) -> (r: &'static str)
    ensures
        r@ == ytdlp_download_url_spec(platform),
{
    match platform {
        Platform::WindowsX64 => {
            "https://github.com/yt-dlp/yt-dlp/releases/latest/download/yt-dlp.exe"
        },
        _ => "https://github.com/yt-dlp/yt-dlp/releases/latest/download/yt-dlp",
    }
}

// ---------------------------------------------------------------------------
// Archive entry selection
// ---------------------------------------------------------------------------

/// Path separators normalized: every backslash becomes a forward slash.
pub open spec fn normalize_sep(s: Seq<char>) -> Seq<char> {
    s.map_values(|c: char| if c == '\\' { '/' } else { c })
}

/// Whether an archive entry is the transcoder executable: after separator
/// normalization its path is the executable name or ends with it as a path
/// component.
pub open spec fn is_ffmpeg_entry(name: Seq<char>, p: Platform) -> bool {
    let n = normalize_sep(name);
    let f = ffmpeg_filename_spec(p);
    n == f || ends_with_spec(n, seq!['/'] + f)
}

/// Whether the named archive entry is the transcoder executable for the
/// platform.
pub fn zip_entry_is_ffmpeg(entry_name: &str, platform: Platform) -> (r: bool)
    ensures
        r == is_ffmpeg_entry(entry_name@, platform),
{
    let v = chars_of(entry_name);
    let n = v.len();
    let mut norm: Vec<char> = Vec::new();
    let mut i: usize = 0;
    while i < n
        invariant
            n == v@.len(),
            i <= n,
            norm@ =~= normalize_sep(v@).take(i as int),
        decreases n - i,
    {
        let c = v[i];
        if c == '\\' {
            norm.push('/');
        } else {
            norm.push(c);
        }
        i = i + 1;
        proof {
            assert(norm@ =~= normalize_sep(v@).take(i as int));
        }
    }
    proof {
        assert(norm@ =~= normalize_sep(v@));
    }
    let fname = chars_of(ffmpeg_filename(platform));
    let mut slashed: Vec<char> = Vec::new();
    slashed.push('/');
    let mut j: usize = 0;
    while j < fname.len()
        invariant
            j <= fname@.len(),
            slashed@ == seq!['/'] + fname@.take(j as int),
        decreases fname@.len() - j,
    {
        slashed.push(fname[j]);
        j = j + 1;
        assert(slashed@ =~= seq!['/'] + fname@.take(j as int));
    }
    proof {
        assert(fname@.take(fname@.len() as int) =~= fname@);
    }
    let equal = norm.len() == fname.len() && check_match_at(&norm, &fname, 0);
    proof {
        if norm@.len() == fname@.len() && crate::text::matches_at(norm@, fname@, 0) {
            assert(norm@ =~= fname@);
        }
    }
    equal || check_ends_with(&norm, &slashed)
}

// ---------------------------------------------------------------------------
// Installation outcomes and status events
// ---------------------------------------------------------------------------

/// The presence check for the downloader tool: its path when the file is
/// already on disk, else the not-installed error.
pub fn check_ytdlp_outcome(path: &str, path_exists: bool) -> (r: Result<String, String>)
    ensures
        path_exists ==> r is Ok && r->Ok_0@ == path@,
        !path_exists ==> r is Err && r->Err_0@ == "yt-dlp not installed"@,
{
    if path_exists {
        Ok(String::from_str(path))
    } else {
        Err(String::from_str("yt-dlp not installed"))
    }
}

/// The resolution used before an invocation: the tool's path when present,
/// else an error telling the caller to wait for the download.
pub fn get_ytdlp_command_outcome(path: &str, path_exists: bool) -> (r: Result<String, String>)
    ensures
        path_exists ==> r is Ok && r->Ok_0@ == path@,
        !path_exists ==> r is Err && r->Err_0@
            == "yt-dlp not installed. Please wait for it to download."@,
{
    if path_exists {
        Ok(String::from_str(path))
    } else {
        Err(String::from_str("yt-dlp not installed. Please wait for it to download."))
    }
}

/// The coarse milestones of a downloader-tool installation.
#[derive(Debug, Clone, Copy, PartialEq, Eq, Structural)]
pub enum InstallMilestone {
    AlreadyInstalled,
    DownloadStart,
    DownloadSized(u64),
    Installing,
    Complete,
}

/// The status word and message of one installation milestone.
pub open spec fn install_event_spec(m: InstallMilestone) -> (Seq<char>, Seq<char>) {
    match m {
        InstallMilestone::AlreadyInstalled => ("already_installed"@, "yt-dlp already installed"@),
        InstallMilestone::DownloadStart => ("downloading"@, "Starting download..."@),
        InstallMilestone::DownloadSized(total) => (
            "downloading"@,
            "Downloading "@ + dec_str(total as nat) + " bytes..."@,
        ),
        InstallMilestone::Installing => ("installing"@, "Writing binary to disk..."@),
        InstallMilestone::Complete => ("complete"@, "yt-dlp installed successfully"@),
    }
}

/// The status notification emitted at an installation milestone.
pub fn ytdlp_install_event(m: &InstallMilestone) -> (r: (String, String))
    ensures
        r.0@ == install_event_spec(*m).0,
        r.1@ == install_event_spec(*m).1,
{
    match m {
        InstallMilestone::AlreadyInstalled => (
            String::from_str("already_installed"),
            String::from_str("yt-dlp already installed"),
        ),
        InstallMilestone::DownloadStart => (
            String::from_str("downloading"),
            String::from_str("Starting download..."),
        ),
        InstallMilestone::DownloadSized(total) => (
            String::from_str("downloading"),
            String::from_str("Downloading ").concat(u64_to_string(*total).as_str()).concat(
                " bytes...",
            ),
        ),
        InstallMilestone::Installing => (
            String::from_str("installing"),
            String::from_str("Writing binary to disk..."),
        ),
        InstallMilestone::Complete => (
            String::from_str("complete"),
            String::from_str("yt-dlp installed successfully"),
        ),
    }
}

/// The error returned and the error event emitted when the downloader
/// tool's download answers with a failing status.
pub fn ytdlp_http_failure(status_display: &str) -> (r: (String, String))
    ensures
        r.0@ == "Failed to download yt-dlp: HTTP "@ + status_display@,
        r.1@ == "HTTP error: "@ + status_display@,
{
    (
        String::from_str("Failed to download yt-dlp: HTTP ").concat(status_display),
        String::from_str("HTTP error: ").concat(status_display),
    )
}

// ---------------------------------------------------------------------------
// Transcoder extraction from its release archive
// ---------------------------------------------------------------------------

/// The entry paths the archive in these bytes holds, in index order.
pub uninterp spec fn zip_entry_names(bytes: Seq<u8>) -> Seq<Seq<char>>;

/// For each entry, whether it is a plain file (directories are not).
pub uninterp spec fn zip_entry_files(bytes: Seq<u8>) -> Seq<bool>;

/// The decompressed contents of the archive entry at the index.
pub uninterp spec fn zip_entry_payload(bytes: Seq<u8>, i: int) -> Seq<u8>;

/// Whether the bytes parse as an archive whose whole directory can be
/// listed.
pub uninterp spec fn zip_listing_ok(bytes: Seq<u8>) -> bool;

/// Whether the entry at the index can be opened and decompressed in full.
pub uninterp spec fn zip_entry_readable(bytes: Seq<u8>, i: int) -> bool;

/// Relies on zip::ZipArchive::new over an in-memory reader, and on
/// ZipFile::name and ZipFile::is_file through ZipArchive::by_index: lists
/// every entry of the archive in index order, succeeding exactly when the
/// archive directory and every entry header can be read from the bytes.
#[verifier::external_body]
fn zip_entries_list(bytes: &[u8]) -> (r: Result<Vec<(String, bool)>, String>)
    ensures
        (r is Ok) == zip_listing_ok(bytes@),
        r is Ok ==> r->Ok_0@.len() == zip_entry_names(bytes@).len() && zip_entry_files(
            bytes@,
        ).len() == zip_entry_names(bytes@).len() && forall|i: int|
            0 <= i < r->Ok_0@.len() ==> (#[trigger] r->Ok_0@[i]).0@ == zip_entry_names(bytes@)[i]
                && r->Ok_0@[i].1 == zip_entry_files(bytes@)[i],
{
    let mut archive = zip::ZipArchive::new(std::io::Cursor::new(bytes.to_vec())).map_err(
        |e| format!("Invalid FFmpeg zip: {}", e),
    )?;
    let mut out: Vec<(String, bool)> = Vec::new();
    for i in 0..archive.len() {
        let f = archive.by_index(i).map_err(|e| format!("Failed to read FFmpeg zip: {}", e))?;
        out.push((f.name().to_string(), f.is_file()));
    }
    Ok(out)
}

/// Relies on zip::ZipArchive::by_index and std::io::Read::read_to_end: the
/// decompressed bytes of one archive entry, read successfully exactly when
/// the archive opens and the entry exists and decompresses in full.
#[verifier::external_body]
fn zip_entry_data(bytes: &[u8], i: usize) -> (r: Result<Vec<u8>, String>)
    ensures
        (r is Ok) == zip_entry_readable(bytes@, i as int),
        r is Ok ==> r->Ok_0@ == zip_entry_payload(bytes@, i as int),
{
    let mut archive = zip::ZipArchive::new(std::io::Cursor::new(bytes.to_vec())).map_err(
        |e| format!("Invalid FFmpeg zip: {}", e),
    )?;
    let mut f = archive.by_index(i).map_err(|e| format!("Failed to read FFmpeg zip: {}", e))?;
    let mut buf: Vec<u8> = Vec::new();
    std::io::Read::read_to_end(&mut f, &mut buf).map_err(
        |e| format!("Failed to extract FFmpeg: {}", e),
    )?;
    Ok(buf)
}

/// The index of the first plain-file entry whose path names the transcoder
/// executable, or -1.
pub open spec fn first_ffmpeg_entry(bytes: Seq<u8>, p: Platform, i: int) -> int
    decreases zip_entry_names(bytes).len() - i,
{
    if i < 0 || i >= zip_entry_names(bytes).len() {
        -1
    } else if zip_entry_files(bytes)[i] && is_ffmpeg_entry(zip_entry_names(bytes)[i], p) {
        i
    } else {
        first_ffmpeg_entry(bytes, p, i + 1)
    }
}

/// Picks the transcoder executable out of its downloaded release archive:
/// the first plain-file entry whose path names the executable is extracted;
/// an unreadable archive, an archive without such an entry, and an entry
/// that will not decompress are each rejected.
pub fn extract_ffmpeg_from_zip(zip_bytes: &[u8], platform: Platform) -> (r: Result<
    Vec<u8>,
    String,
>)
    ensures
        !zip_listing_ok(zip_bytes@) ==> r is Err,
        zip_listing_ok(zip_bytes@) && first_ffmpeg_entry(zip_bytes@, platform, 0) == -1 ==> r
            is Err && r->Err_0@ == "FFmpeg binary not found inside zip"@,
        zip_listing_ok(zip_bytes@) && first_ffmpeg_entry(zip_bytes@, platform, 0) >= 0 ==> ({
            let fi = first_ffmpeg_entry(zip_bytes@, platform, 0);
            &&& (zip_entry_readable(zip_bytes@, fi) ==> r is Ok && r->Ok_0@ == zip_entry_payload(
                zip_bytes@,
                fi,
            ))
            &&& (!zip_entry_readable(zip_bytes@, fi) ==> r is Err)
        }),
{
    let entries = match zip_entries_list(zip_bytes) {
        Err(e) => {
            return Err(e);
        },
        Ok(es) => es,
    };
    let n = entries.len();
    let mut i: usize = 0;
    while i < n
        invariant
            n == entries@.len(),
            zip_listing_ok(zip_bytes@),
            entries@.len() == zip_entry_names(zip_bytes@).len(),
            zip_entry_files(zip_bytes@).len() == zip_entry_names(zip_bytes@).len(),
            forall|j: int|
                0 <= j < n ==> (#[trigger] entries@[j]).0@ == zip_entry_names(zip_bytes@)[j]
                    && entries@[j].1 == zip_entry_files(zip_bytes@)[j],
            i <= n,
            first_ffmpeg_entry(zip_bytes@, platform, 0) == first_ffmpeg_entry(
                zip_bytes@,
                platform,
                i as int,
            ),
        decreases n - i,
    {
        let is_file = entries[i].1;
        if is_file && zip_entry_is_ffmpeg(entries[i].0.as_str(), platform) {
            assert(first_ffmpeg_entry(zip_bytes@, platform, i as int) == i);
            return zip_entry_data(zip_bytes, i);
        }
        i = i + 1;
    }
    assert(first_ffmpeg_entry(zip_bytes@, platform, n as int) == -1);
    Err(String::from_str("FFmpeg binary not found inside zip"))
}

} // verus!
