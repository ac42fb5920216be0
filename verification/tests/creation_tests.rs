use std::path::Path;
use zzz::app_creation::{escape_backslashes_str, AppCreation, Step, SETTINGS_GRADLE_DEFAULT, GITIGNORE};
use zzz::android_resources::AndroidResources;

fn j(a: &str, b: &str) -> String {
    Path::new(a).join(b).to_string_lossy().into_owned()
}

#[test]
fn nothing_is_created_without_a_name_or_place() {
    let a = AppCreation::new(String::new(), "/tmp".to_string(), "30".to_string());
    assert!(a.create_app_steps("/g", "/sdk").is_none());
    let b = AppCreation::new("App".to_string(), String::new(), "30".to_string());
    assert!(b.create_app_steps("/g", "/sdk").is_none());
}

fn writes(steps: &[Step]) -> Vec<(String, String)> {
    steps
        .iter()
        .filter_map(|s| match s {
            Step::WriteFile(p, c) => Some((p.clone(), c.clone())),
            _ => None,
        })
        .collect()
}

#[test]
fn project_steps_in_order() {
    let a = AppCreation::new("App".to_string(), "/work".to_string(), "33".to_string());
    let steps = a.create_app_steps("/g", "C:\\sdk").unwrap();
    assert_eq!(steps.len(), 84);
    let pd = j("/work", "App");
    assert!(matches!(&steps[0], Step::Log(m) if m == "Creating project structure..."));
    match &steps[1] {
        Step::CreateDir(p) => assert_eq!(p, &pd),
        _ => panic!(),
    }
    let res = j(&j(&j(&j(&pd, "app"), "src"), "main"), "res");
    let dirs: Vec<String> = steps.iter().filter_map(|s| if let Step::CreateDir(p) = s { Some(p.clone()) } else { None }).collect();
    assert_eq!(dirs.len(), 20);
    assert_eq!(dirs[13], j(&res, "mipmap-mdpi"));
    let w = writes(&steps);
    assert_eq!(w.len(), 28);
    assert_eq!(w[0].0, j(&j(&res, "mipmap-mdpi"), "ic_launcher.xml"));
    assert!(w[0].1.contains("android:inset=\"12\"/>"));
    assert_eq!(w[9].0, j(&j(&res, "mipmap-xxxhdpi"), "ic_launcher_round.xml"));
    assert!(w[9].1.contains("android:inset=\"48\"/>"));
    let copies: Vec<(String, String)> = steps.iter().filter_map(|s| if let Step::CopyFile(a, b) = s { Some((a.clone(), b.clone())) } else { None }).collect();
    assert_eq!(copies[0], (j("/g", "gradlew"), j(&pd, "gradlew")));
    let fetch = steps.iter().position(|s| matches!(s, Step::FetchGradleFiles)).unwrap();
    let first_copy = steps.iter().position(|s| matches!(s, Step::CopyFile(..))).unwrap();
    assert!(fetch < first_copy);
    assert_eq!(w[13].0, j(&pd, "settings.gradle.kts"));
    assert!(w[13].1.contains("rootProject.name = \"App\""));
    assert_eq!(w[14], (j(&pd, "local.properties"), "sdk.dir=C:\\\\sdk".to_string()));
    assert!(w[15].1.contains("compileSdk = 33") && w[15].1.contains("targetSdk = 33"));
    assert_eq!(w[16], (j(&pd, "settings.gradle.kts"), SETTINGS_GRADLE_DEFAULT.to_string()));
    assert_eq!(w[27], (j(&pd, ".gitignore"), GITIGNORE.to_string()));
    let strings = w.iter().find(|(p, _)| p.ends_with("strings.xml")).unwrap();
    assert!(strings.1.contains("<string name=\"app_name\">App</string>"));
}

#[test]
fn creation_reports_its_lines_and_progress() {
    let a = AppCreation::new("App".to_string(), "/work".to_string(), "30".to_string());
    let steps = a.create_app_steps("/g", "/sdk").unwrap();
    let pd = j("/work", "App");
    let logs: Vec<String> = steps.iter().filter_map(|s| if let Step::Log(m) = s { Some(m.clone()) } else { None }).collect();
    assert_eq!(
        logs,
        vec![
            "Creating project structure...".to_string(),
            "Created root directories".to_string(),
            "Creating Android app directories...".to_string(),
            "Setting up Gradle build system...".to_string(),
            "Creating build configuration files...".to_string(),
            "Creating Gradle configuration...".to_string(),
            "Creating Android source files...".to_string(),
            "Creating Android resource files...".to_string(),
            "Creating test files...".to_string(),
            "Finalizing project setup...".to_string(),
            format!("App creation completed. Project created at: {}", pd),
        ]
    );
    let progress: Vec<u32> = steps.iter().filter_map(|s| if let Step::Progress(n) = s { Some(*n) } else { None }).collect();
    let mut expected = vec![50];
    expected.extend((0..16).map(|i| 50 + 5 * i));
    expected.extend([60, 80, 100]);
    assert_eq!(progress, expected);
    assert!(matches!(steps.last(), Some(Step::Log(_))));
}

#[test]
fn backslashes_are_doubled() {
    assert_eq!(escape_backslashes_str("a\\b\\\\c"), "a\\\\b\\\\\\\\c");
    assert_eq!(escape_backslashes_str("/plain"), "/plain");
}

#[test]
fn resources_live_under_the_config_directory() {
    let r = AndroidResources::new("/cfg");
    let base = j("/cfg", "android_resources");
    assert_eq!(r.resources_path, base);
    assert_eq!(r.gradle_version, "8.2.1");
    assert_eq!(r.get_gradle_path(), j(&base, "gradle"));
    assert_eq!(r.get_platform_path("30"), j(&j(&base, "platforms"), "android-30"));
    let files = r.gradle_downloads();
    assert_eq!(files.len(), 4);
    assert_eq!(files[2].url, "https://raw.githubusercontent.com/gradle/gradle/v8.2.1/gradle/wrapper/gradle-wrapper.jar");
    assert_eq!(files[2].relative_path, "wrapper/gradle-wrapper.jar");
    assert_eq!(files[2].destination, j(&j(&base, "gradle"), "wrapper/gradle-wrapper.jar"));
    assert_eq!(AndroidResources::platform_url("33"), "https://dl.google.com/android/repository/platform-33.zip");
}
