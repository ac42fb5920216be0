use zzz::emulator_panel::{
    validate_project_structure, extract_manifest_info, extract_package_from_gradle, devices_connected,
    status_is_positive, command_result, deploy_progress, launch_component, DeployStage, EmulatorPanel,
    ProjectLayout, RunDecision,
};

fn layout(all: bool) -> ProjectLayout {
    ProjectLayout { has_app_dir: true, has_gradle_wrapper: true, has_gradle_dir: all, has_build_gradle: true, has_settings_gradle: true }
}

#[test]
fn project_structure_is_checked_in_order() {
    assert!(validate_project_structure(&layout(true)).is_ok());
    assert_eq!(validate_project_structure(&layout(false)).unwrap_err(), "Invalid project structure: 'gradle' directory not found");
    let mut l = layout(true);
    l.has_app_dir = false;
    l.has_settings_gradle = false;
    assert_eq!(validate_project_structure(&l).unwrap_err(), "Invalid project structure: 'app' directory not found");
    let mut l = layout(true);
    l.has_settings_gradle = false;
    assert_eq!(validate_project_structure(&l).unwrap_err(), "Invalid project structure: settings.gradle not found");
}

#[test]
fn manifest_gives_package_and_activity() {
    let manifest = "<manifest package=\"com.ex.app\"><application><activity android:name=\".MainActivity\"/></application></manifest>";
    assert_eq!(extract_manifest_info(manifest), Some(("com.ex.app".to_string(), "com.ex.app.MainActivity".to_string())));
    let full = "<manifest package=\"a.b\"><activity android:name=\"x.y.Main\"/></manifest>";
    assert_eq!(extract_manifest_info(full), Some(("a.b".to_string(), "x.y.Main".to_string())));
    assert!(extract_manifest_info("<manifest package=\"a.b\"></manifest>").is_none());
    assert!(extract_manifest_info("<activity android:name=\"x.Main\"/>").is_none());
    assert!(extract_manifest_info("").is_none());
}

#[test]
fn gradle_package_is_the_first_quoted_id() {
    let g = "plugins {}\nandroid {\n    namespace = \"com.example.app\"\n    applicationId = \"other\"\n}";
    assert_eq!(extract_package_from_gradle(g).as_deref(), Some("com.example.app"));
    assert!(extract_package_from_gradle("applicationId com.x\nnamespace \"y\"").is_none());
    assert!(extract_package_from_gradle("nothing").is_none());
    assert_eq!(extract_package_from_gradle("applicationId \"open").as_deref(), Some("open"));
}

#[test]
fn devices_and_statuses() {
    assert!(!devices_connected("List of devices attached\n"));
    assert!(devices_connected("List of devices attached\nemulator-5554\tdevice\n"));
    assert!(status_is_positive("Build successful, installing app..."));
    assert!(status_is_positive("Screen mirroring started"));
    assert!(!status_is_positive("Build failed: x"));
}

#[test]
fn command_outcomes_and_deploy_stages() {
    assert_eq!(command_result("Build", true, "Build successful", "o", "e").unwrap(), "Build successful");
    assert_eq!(command_result("Build", false, "Build successful", "o", "e").unwrap_err(), "Build failed:\nStdout: o\nStderr: e");
    let (s, n) = deploy_progress(DeployStage::Build, Ok("x".to_string()));
    assert_eq!(s, "Build successful, installing app...");
    assert_eq!(n, Some(DeployStage::Install));
    let (s, n) = deploy_progress(DeployStage::Install, Err("bad".to_string()));
    assert_eq!(s, "Installation failed: bad");
    assert_eq!(n, None);
    let (s, _) = deploy_progress(DeployStage::Install, Ok(String::new()));
    assert_eq!(s, "Installation successful, launching app...");
    let (s, n) = deploy_progress(DeployStage::Launch, Ok("App launched successfully".to_string()));
    assert_eq!(s, "App launched successfully");
    assert!(n.is_none());
    let (s, _) = deploy_progress(DeployStage::Launch, Err("no".to_string()));
    assert_eq!(s, "Launch failed: no");
    let (s, _) = deploy_progress(DeployStage::Build, Err("e".to_string()));
    assert_eq!(s, "Build failed: e");
    assert_eq!(launch_component("com.a", "com.a.Main"), "com.a/com.a.Main");
}

#[test]
fn configuring_a_project() {
    let mut p = EmulatorPanel::new(None);
    assert!(p.is_initializing);
    p.set_project_path("/p".to_string(), &layout(false), None, None);
    assert!(p.project_path.is_none());
    assert_eq!(p.last_build_status.as_deref(), Some("Invalid project structure: 'gradle' directory not found"));
    p.set_project_path("/p".to_string(), &layout(true), Some("<manifest package=\"a\"/>".to_string()), Some("namespace = \"com.x\"".to_string()));
    assert_eq!(p.project_path.as_deref(), Some("/p"));
    assert_eq!(p.app_package_name, "com.x");
    assert_eq!(p.app_activity_name, "com.x.MainActivity");
    assert_eq!(p.last_build_status.as_deref(), Some("Package name found in gradle, but please verify the activity name is correct."));
    p.set_project_path("/q".to_string(), &layout(true), None, None);
    assert_eq!(p.last_build_status.as_deref(), Some("Could not detect package info. Please configure manually."));
    assert_eq!(p.app_package_name, "com.x");
    assert!(p.should_follow_file_modal(&Some("/r".to_string())));
    assert!(!p.should_follow_file_modal(&Some("/q".to_string())));
    assert!(!p.should_follow_file_modal(&None));
}

#[test]
fn running_needs_a_device_and_a_project() {
    let mut p = EmulatorPanel::new(Some("/usr/bin/scrcpy".to_string()));
    assert!(matches!(p.run_app(false), RunDecision::NoDevice));
    assert_eq!(p.last_build_status.as_deref(), Some("No device connected"));
    assert!(matches!(p.run_app(true), RunDecision::NoProject));
    assert_eq!(p.last_build_status.as_deref(), Some("Please select an Android project directory first"));
    p.project_path = Some("/p".to_string());
    assert!(matches!(p.run_app(true), RunDecision::Deploy { start_mirror: true }));
    p.scrcpy_started();
    assert!(p.scrcpy_running);
    assert!(matches!(p.run_app(true), RunDecision::Deploy { start_mirror: false }));
    p.scrcpy_stopped();
    assert!(!p.scrcpy_running);
    p.scrcpy_failed("denied");
    assert_eq!(p.last_build_status.as_deref(), Some("Failed to start scrcpy: denied"));
    p.scrcpy_missing();
    assert_eq!(p.last_build_status.as_deref(), Some("scrcpy executable not found"));
    p.update_status(None);
    assert!(p.last_build_status.is_none());
}

#[test]
fn startup_device_check_settles_the_panel() {
    let mut p = EmulatorPanel::new(None);
    assert!(p.is_initializing);
    p.devices_checked(Some("List of devices attached\nemulator-5554\tdevice\n"));
    assert!(!p.is_initializing);
    assert!(p.device_connected);
    p.devices_checked(Some("List of devices attached\n"));
    assert!(!p.device_connected);
    p.device_connected = true;
    p.devices_checked(None);
    assert!(p.device_connected);
}
