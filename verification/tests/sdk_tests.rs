use std::path::Path;
use zzz::android_sdk::{
    download_report_due, extraction_report_due, license_files, sdk_platform_urls, AndroidSdkManager,
    PROGRESS_REPORT_THRESHOLD,
};
use zzz::settings_modal::model_choices;
use zzz::android_sdk::{first_sdk_step, next_sdk_step, DownloadOutcome, SdkStep};

fn j(a: &str, b: &str) -> String {
    Path::new(a).join(b).to_string_lossy().into_owned()
}

#[test]
fn sdk_lives_under_the_config_directory() {
    let sdk = AndroidSdkManager::new("/cfg");
    let root = j(&j("/cfg", "zzz"), "android-sdk");
    assert_eq!(sdk.get_sdk_path(), root);
    assert_eq!(sdk.get_platform_dir("33"), j(&j(&root, "platforms"), "android-33"));
    assert_eq!(sdk.licenses_dir(), j(&root, "licenses"));
}

#[test]
fn licence_files_are_the_three_known_ones() {
    let files = license_files();
    assert_eq!(files.len(), 3);
    assert_eq!(files[0], ("android-sdk-license".to_string(), "24333f8a63b6825ea9c5514f83c2829b004d1fee".to_string()));
    assert_eq!(files[1].0, "android-sdk-preview-license");
    assert_eq!(files[2].0, "intel-android-extra-license");
    assert_eq!(files[2].1, "d975f751698a77b662f1254ddbeed3901e976f5a");
}

#[test]
fn platform_archives_are_tried_in_order() {
    let urls = sdk_platform_urls("30");
    assert_eq!(
        urls,
        vec![
            "https://dl.google.com/android/repository/platforms/android-30_r02.zip".to_string(),
            "https://dl.google.com/android/repository/platform-30_r02.zip".to_string(),
            "https://dl.google.com/android/repository/android-30/android-30.zip".to_string(),
        ]
    );
}

#[test]
fn progress_is_reported_per_megabyte_and_per_tenth() {
    assert_eq!(PROGRESS_REPORT_THRESHOLD, 1_048_576);
    assert!(!download_report_due(1_048_575, 0));
    assert!(download_report_due(1_048_576, 0));
    assert!(download_report_due(3_000_000, 1_000_000));
    assert!(extraction_report_due(0, 100));
    assert!(extraction_report_due(20, 100));
    assert!(!extraction_report_due(21, 100));
    assert!(extraction_report_due(7, 5));
    assert!(extraction_report_due(5, 15));
}

#[test]
fn model_list_ends_with_other() {
    let models = model_choices();
    assert_eq!(models.len(), 4);
    assert_eq!(models[0], "deepseek-ai/DeepSeek-R1");
    assert_eq!(models[3], "Other");
}

#[test]
fn platform_fetch_tries_each_address_then_gives_up() {
    assert!(matches!(first_sdk_step("30", true), SdkStep::AlreadyPresent));
    let urls = sdk_platform_urls("30");
    assert!(matches!(first_sdk_step("30", false), SdkStep::TryAddress(u) if u == urls[0]));
    assert!(matches!(next_sdk_step("30", 0, DownloadOutcome::Responded(true)), SdkStep::Download));
    assert!(matches!(next_sdk_step("30", 0, DownloadOutcome::Responded(false)), SdkStep::TryAddress(u) if u == urls[1]));
    assert!(matches!(next_sdk_step("30", 1, DownloadOutcome::Responded(false)), SdkStep::TryAddress(u) if u == urls[2]));
    assert!(matches!(next_sdk_step("30", 2, DownloadOutcome::Responded(false)),
        SdkStep::Fail(m) if m == "Failed to download SDK. Please verify the API level 30 is valid."));
    assert!(matches!(next_sdk_step("30", 0, DownloadOutcome::TimedOut), SdkStep::Fail(m) if m == "Download timed out"));
    assert!(matches!(next_sdk_step("30", 0, DownloadOutcome::RequestFailed("dns".to_string())), SdkStep::Fail(m) if m == "Request error: dns"));
    assert!(matches!(next_sdk_step("30", 1, DownloadOutcome::RequestFailed("dns".to_string())), SdkStep::Fail(m) if m == "dns"));
}
