//! Downloader settings and command-line arguments.
use vstd::prelude::*;
use crate::media::Quality;
use crate::text::copy_str;

verus! {

/// Settings of the downloader.
#[derive(Debug)]
pub struct DownloaderConfig {
    pub concurrent_downloads: usize,
    pub quality: Quality,
    pub path: String,
    pub filename_template: String,
    pub id3v24: bool,
    pub convert_to_mp3: bool,
    pub separator: String,
    pub skip_existing: bool,
}

/// Mathematical model of [`DownloaderConfig`].
pub struct DownloaderConfigView {
    pub concurrent_downloads: usize,
    pub quality: Quality,
    pub path: Seq<char>,
    pub filename_template: Seq<char>,
    pub id3v24: bool,
    pub convert_to_mp3: bool,
    pub separator: Seq<char>,
    pub skip_existing: bool,
}

impl View for DownloaderConfig {
    type V = DownloaderConfigView;

    open spec fn view(&self) -> DownloaderConfigView {
        DownloaderConfigView {
            concurrent_downloads: self.concurrent_downloads,
            quality: self.quality,
            path: self.path@,
            filename_template: self.filename_template@,
            id3v24: self.id3v24,
            convert_to_mp3: self.convert_to_mp3,
            separator: self.separator@,
            skip_existing: self.skip_existing,
        }
    }
}

impl Clone for DownloaderConfig {
    fn clone(&self) -> (r: Self)
        ensures
            r@ == self@,
    {
        DownloaderConfig {
            concurrent_downloads: self.concurrent_downloads,
            quality: self.quality,
            path: self.path.clone(),
            filename_template: self.filename_template.clone(),
            id3v24: self.id3v24,
            convert_to_mp3: self.convert_to_mp3,
            separator: self.separator.clone(),
            skip_existing: self.skip_existing,
        }
    }
}

impl DownloaderConfig {
    /// The default settings: four downloads at a time, 320 kbps, into
    /// `downloads`, named `%artist% - %title%`, ID3v2.4, no conversion to MP3,
    /// values separated by `, `, existing files skipped.
    pub open spec fn new_spec() -> DownloaderConfigView {
        DownloaderConfigView {
            concurrent_downloads: 4,
            quality: Quality::Q320,
            path: "downloads"@,
            filename_template: "%artist% - %title%"@,
            id3v24: true,
            convert_to_mp3: false,
            separator: ", "@,
            skip_existing: true,
        }
    }

    /// Create new instance with the default settings.
    pub fn new() -> (r: DownloaderConfig)
        ensures
            r@ == DownloaderConfig::new_spec(),
    {
        DownloaderConfig {
            concurrent_downloads: 4,
            quality: Quality::Q320,
            path: copy_str("downloads"),
            filename_template: copy_str("%artist% - %title%"),
            id3v24: true,
            convert_to_mp3: false,
            separator: copy_str(", "),
            skip_existing: true,
        }
    }
}

/// All settings of the program.
#[derive(Debug)]
pub struct Settings {
    pub username: String,
    pub password: String,
    pub client_id: String,
    pub client_secret: String,
    pub refresh_ui_seconds: u64,
    pub downloader: DownloaderConfig,
    /// ISO 3166-1 alpha-3 code of the market whose catalog is searched.
    pub market: Option<String>,
}

impl Settings {
    /// Settings with the given credentials and the default choices: refresh
    /// every second, the default downloader settings, the United States market.
    pub fn new(username: &str, password: &str, client_id: &str, client_secret: &str) -> (r: Settings)
        ensures
            r.username@ == username@,
            r.password@ == password@,
            r.client_id@ == client_id@,
            r.client_secret@ == client_secret@,
            r.refresh_ui_seconds == 1,
            r.downloader@ == DownloaderConfig::new_spec(),
            r.market matches Some(m) && m@ == "USA"@,
    {
        Settings {
            username: copy_str(username),
            password: copy_str(password),
            client_id: copy_str(client_id),
            client_secret: copy_str(client_secret),
            refresh_ui_seconds: 1,
            downloader: DownloaderConfig::new(),
            market: Some(copy_str("USA")),
        }
    }
}

/// Command-line arguments: a track, album, playlist or artist URL or URI, or a search term.
#[derive(Debug)]
pub struct Args {
    pub input: String,
}

} // verus!
