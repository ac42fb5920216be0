//! The Android SDK: where it is kept, the licence files it needs, where a
//! platform is fetched from, and when progress is reported.
use vstd::prelude::*;
use vstd::string::StringExecFns;
use crate::paths::{path_join, join_path};

verus! {

/// The address that platform archives are fetched under.
pub open spec fn sdk_base_url() -> Seq<char> {
    "https://dl.google.com/android/repository"@
}

/// The addresses tried, in order, for an API level's platform archive.
pub open spec fn platform_urls(api: Seq<char>) -> Seq<Seq<char>> {
    seq![
        sdk_base_url() + "/platforms/android-"@ + api + "_r02.zip"@,
        sdk_base_url() + "/platform-"@ + api + "_r02.zip"@,
        sdk_base_url() + "/android-"@ + api + "/android-"@ + api + ".zip"@,
    ]
}

/// How long the first address is given to answer, in seconds.
pub const DOWNLOAD_TIMEOUT_SECS: u64 = 300;

/// Download progress is reported once this many more bytes arrived.
pub const PROGRESS_REPORT_THRESHOLD: u64 = 1048576;

/// The licence files written into the SDK: name and content.
pub open spec fn licence_files() -> Seq<(Seq<char>, Seq<char>)> {
    seq![
        ("android-sdk-license"@, "24333f8a63b6825ea9c5514f83c2829b004d1fee"@),
        ("android-sdk-preview-license"@, "84831b9409646a918e30573bab4c9c91346d8abd"@),
        ("intel-android-extra-license"@, "d975f751698a77b662f1254ddbeed3901e976f5a"@),
    ]
}

/// The SDK kept in a configuration directory.
pub struct AndroidSdkManager {
    pub sdk_path: String,
}

impl AndroidSdkManager {
    /// The SDK under `config_dir`, in `zzz/android-sdk`.
    pub fn new(config_dir: &str) -> (m: Self)
        ensures
            m.sdk_path@ == path_join(path_join(config_dir@, "zzz"@), "android-sdk"@),
    {
        AndroidSdkManager { sdk_path: join_path(join_path(config_dir, "zzz").as_str(), "android-sdk") }
    }

    /// The SDK directory.
    pub fn get_sdk_path(&self) -> (p: &str)
        ensures
            p@ == self.sdk_path@,
    {
        self.sdk_path.as_str()
    }

    /// The directory of an API level's platform.
    pub fn get_platform_dir(&self, api_level: &str) -> (p: String)
        ensures
            p@ == path_join(path_join(self.sdk_path@, "platforms"@), "android-"@ + api_level@),
    {
        let mut name = String::from_str("android-");
        name.append(api_level);
        join_path(join_path(self.sdk_path.as_str(), "platforms").as_str(), name.as_str())
    }

    /// The directory that holds the licence files.
    pub fn licenses_dir(&self) -> (p: String)
        ensures
            p@ == path_join(self.sdk_path@, "licenses"@),
    {
        join_path(self.sdk_path.as_str(), "licenses")
    }
}

/// The licence files, in order.
pub fn license_files() -> (r: Vec<(String, String)>)
    ensures
        r@.len() == 3,
        forall|k: int| 0 <= k < 3 ==> (#[trigger] r@[k]).0@ == licence_files()[k].0 && r@[k].1@ == licence_files()[k].1,
{
    let mut r: Vec<(String, String)> = Vec::new();
    r.push((String::from_str("android-sdk-license"), String::from_str("24333f8a63b6825ea9c5514f83c2829b004d1fee")));
    r.push((String::from_str("android-sdk-preview-license"), String::from_str("84831b9409646a918e30573bab4c9c91346d8abd")));
    r.push((String::from_str("intel-android-extra-license"), String::from_str("d975f751698a77b662f1254ddbeed3901e976f5a")));
    r
}

/// The addresses tried for an API level's platform archive, in order.
pub fn sdk_platform_urls(api_level: &str) -> (r: Vec<String>)
    ensures
        r@.len() == 3,
        forall|k: int| 0 <= k < 3 ==> (#[trigger] r@[k])@ == platform_urls(api_level@)[k],
{
    let mut a = String::from_str("https://dl.google.com/android/repository");
    a.append("/platforms/android-");
    a.append(api_level);
    a.append("_r02.zip");
    let mut b = String::from_str("https://dl.google.com/android/repository");
    b.append("/platform-");
    b.append(api_level);
    b.append("_r02.zip");
    let mut c = String::from_str("https://dl.google.com/android/repository");
    c.append("/android-");
    c.append(api_level);
    c.append("/android-");
    c.append(api_level);
    c.append(".zip");
    let mut r: Vec<String> = Vec::new();
    r.push(a);
    r.push(b);
    r.push(c);
    r
}

/// What came of asking one address for the platform archive.
pub enum DownloadOutcome {
    /// The server answered; whether its status was a success.
    Responded(bool),
    /// No answer came in time.
    TimedOut,
    /// The request failed with this error.
    RequestFailed(String),
}

/// What to do next while fetching a platform.
pub enum SdkStep {
    /// The platform is already there: report it complete and stop.
    AlreadyPresent,
    /// Ask this address (the platform's directory is created first).
    TryAddress(String),
    /// The last answer holds the archive: download and unpack it.
    Download,
    /// Give up with this error.
    Fail(String),
}

/// The error when no address had the platform.
pub open spec fn no_platform_text(api: Seq<char>) -> Seq<char> {
    "Failed to download SDK. Please verify the API level "@ + api + " is valid."@
}

/// The first step of fetching a platform: nothing when it is already there,
/// else the first address.
pub fn first_sdk_step(api_level: &str, platform_exists: bool) -> (s: SdkStep)
    ensures
        platform_exists ==> s is AlreadyPresent,
        !platform_exists ==> (s matches SdkStep::TryAddress(u) && u@ == platform_urls(api_level@)[0]),
{
    if platform_exists {
        SdkStep::AlreadyPresent
    } else {
        let urls = sdk_platform_urls(api_level);
        SdkStep::TryAddress(urls[0].clone())
    }
}

/// The step after asking address `mirror` (0, 1 or 2): a successful answer is
/// downloaded; an unsuccessful one moves to the next address, or after the
/// last one gives up; only the first address is timed, and its request error
/// is reported as such, while a later one's is reported as it is.
pub fn next_sdk_step(api_level: &str, mirror: usize, outcome: DownloadOutcome) -> (s: SdkStep)
    requires
        mirror < 3,
    ensures
        match outcome {
            DownloadOutcome::Responded(true) => s is Download,
            DownloadOutcome::Responded(false) => if mirror + 1 < 3 {
                (s matches SdkStep::TryAddress(u) && u@ == platform_urls(api_level@)[mirror + 1])
            } else {
                (s matches SdkStep::Fail(m) && m@ == no_platform_text(api_level@))
            },
            DownloadOutcome::TimedOut => (s matches SdkStep::Fail(m) && m@ == "Download timed out"@),
            DownloadOutcome::RequestFailed(e) => (s matches SdkStep::Fail(m) && m@ == (if mirror == 0 {
                "Request error: "@ + e@
            } else {
                e@
            })),
        },
{
    match outcome {
        DownloadOutcome::Responded(ok) => {
            if ok {
                SdkStep::Download
            } else if mirror + 1 < 3 {
                let urls = sdk_platform_urls(api_level);
                SdkStep::TryAddress(urls[mirror + 1].clone())
            } else {
                let mut m = String::from_str("Failed to download SDK. Please verify the API level ");
                m.append(api_level);
                m.append(" is valid.");
                SdkStep::Fail(m)
            }
        },
        DownloadOutcome::TimedOut => SdkStep::Fail(String::from_str("Download timed out")),
        DownloadOutcome::RequestFailed(e) => {
            if mirror == 0 {
                let mut m = String::from_str("Request error: ");
                m.append(e.as_str());
                SdkStep::Fail(m)
            } else {
                SdkStep::Fail(e)
            }
        },
    }
}

/// Whether download progress is due: at least the threshold arrived since
/// the last report.
pub fn download_report_due(downloaded: u64, last_reported: u64) -> (b: bool)
    requires
        last_reported <= downloaded,
    ensures
        b == (downloaded - last_reported >= PROGRESS_REPORT_THRESHOLD),
{
    downloaded - last_reported >= PROGRESS_REPORT_THRESHOLD
}

/// Whether extraction progress is due at file `i` of `total`: every tenth
/// of the files (every file when there are fewer than ten).
pub fn extraction_report_due(i: usize, total: usize) -> (b: bool)
    ensures
        b == (i % (if total / 10 > 1 { total / 10 } else { 1 }) == 0),
{
    let step = if total / 10 > 1 { total / 10 } else { 1 };
    i % step == 0
}

} // verus!
