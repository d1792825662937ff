//! Where the application keeps its data and its model cache on each platform.
use vstd::prelude::*;
use vstd::string::StringExecFns;

verus! {

/// The operating system the application runs on, as far as directories go.
#[derive(Debug, Clone, Copy, PartialEq, Eq, Structural)]
pub enum Platform {
    MacOs,
    Windows,
    Other,
}

/// A directory given as a path relative to a base directory, or, without a
/// base, relative to the working directory.
pub struct DirChoice {
    pub base: Option<String>,
    pub relative: String,
}

/// The directory that holds the settings file and the documents: under the
/// home directory (`Library/Application Support/whisper-app` on macOS,
/// `.local/share/whisper-app` elsewhere), or, on Windows, `whisper-app`
/// under `APPDATA` or else under the home directory; `whisper-app-data` in
/// the working directory when neither is known.
pub fn config_dir_choice(platform: Platform, home: Option<String>, appdata: Option<String>) -> (d: DirChoice)
    ensures
        match platform {
            Platform::MacOs => match home {
                Some(h) => d.base == Some(h) && d.relative@ == "Library/Application Support/whisper-app"@,
                None => d.base is None && d.relative@ == "whisper-app-data"@,
            },
            Platform::Windows => match appdata {
                Some(a) => d.base == Some(a) && d.relative@ == "whisper-app"@,
                None => match home {
                    Some(h) => d.base == Some(h) && d.relative@ == "whisper-app"@,
                    None => d.base is None && d.relative@ == "whisper-app-data"@,
                },
            },
            Platform::Other => match home {
                Some(h) => d.base == Some(h) && d.relative@ == ".local/share/whisper-app"@,
                None => d.base is None && d.relative@ == "whisper-app-data"@,
            },
        },
{
    match platform {
        Platform::MacOs => match home {
            Some(h) => DirChoice {
                base: Some(h),
                relative: String::from_str("Library/Application Support/whisper-app"),
            },
            None => DirChoice { base: None, relative: String::from_str("whisper-app-data") },
        },
        Platform::Windows => match appdata {
            Some(a) => DirChoice { base: Some(a), relative: String::from_str("whisper-app") },
            None => match home {
                Some(h) => DirChoice { base: Some(h), relative: String::from_str("whisper-app") },
                None => DirChoice { base: None, relative: String::from_str("whisper-app-data") },
            },
        },
        Platform::Other => match home {
            Some(h) => DirChoice { base: Some(h), relative: String::from_str(".local/share/whisper-app") },
            None => DirChoice { base: None, relative: String::from_str("whisper-app-data") },
        },
    }
}

/// The directory that holds downloaded models and other cached files: under
/// the home directory (`Library/Caches/whisper-app` on macOS,
/// `.cache/whisper-app` elsewhere), or, on Windows, `whisper-app/Cache` under
/// `LOCALAPPDATA` or else `.cache/whisper-app` under the home directory;
/// `.cache/whisper-app` in the working directory when neither is known.
pub fn cache_dir_choice(platform: Platform, home: Option<String>, local_appdata: Option<String>) -> (d: DirChoice)
    ensures
        match platform {
            Platform::MacOs => match home {
                Some(h) => d.base == Some(h) && d.relative@ == "Library/Caches/whisper-app"@,
                None => d.base is None && d.relative@ == ".cache/whisper-app"@,
            },
            Platform::Windows => match local_appdata {
                Some(a) => d.base == Some(a) && d.relative@ == "whisper-app/Cache"@,
                None => match home {
                    Some(h) => d.base == Some(h) && d.relative@ == ".cache/whisper-app"@,
                    None => d.base is None && d.relative@ == ".cache/whisper-app"@,
                },
            },
            Platform::Other => match home {
                Some(h) => d.base == Some(h) && d.relative@ == ".cache/whisper-app"@,
                None => d.base is None && d.relative@ == ".cache/whisper-app"@,
            },
        },
{
    match platform {
        Platform::MacOs => match home {
            Some(h) => DirChoice { base: Some(h), relative: String::from_str("Library/Caches/whisper-app") },
            None => DirChoice { base: None, relative: String::from_str(".cache/whisper-app") },
        },
        Platform::Windows => match local_appdata {
            Some(a) => DirChoice { base: Some(a), relative: String::from_str("whisper-app/Cache") },
            None => match home {
                Some(h) => DirChoice { base: Some(h), relative: String::from_str(".cache/whisper-app") },
                None => DirChoice { base: None, relative: String::from_str(".cache/whisper-app") },
            },
        },
        Platform::Other => match home {
            Some(h) => DirChoice { base: Some(h), relative: String::from_str(".cache/whisper-app") },
            None => DirChoice { base: None, relative: String::from_str(".cache/whisper-app") },
        },
    }
}

} // verus!
