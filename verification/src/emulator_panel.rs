//! Running an Android project on a device: checking the project, finding its
//! package and activity, and the statuses of building, installing and
//! launching it.
use vstd::prelude::*;
use vstd::string::StringExecFns;
use crate::text::{
    occurs_at, contains_seq, starts_with_seq, find_char_from, lines, lines_of, strs_view, to_chars,
    find_from, substring, str_contains, str_starts_with, str_eq, lemma_find_char_from_bounds,
};
use crate::code_editor::opt_str;
use crate::git_manager::{first_occurrence_from, lemma_first_occurrence, split_seq, split_str};

verus! {

/// What the disk shows of a project directory.
pub struct ProjectLayout {
    pub has_app_dir: bool,
    pub has_gradle_wrapper: bool,
    pub has_gradle_dir: bool,
    pub has_build_gradle: bool,
    pub has_settings_gradle: bool,
}

/// The first problem of a project layout, if any.
pub open spec fn layout_problem(l: ProjectLayout) -> Option<Seq<char>> {
    if !l.has_app_dir {
        Some("Invalid project structure: 'app' directory not found"@)
    } else if !l.has_gradle_wrapper {
        Some("Invalid project structure: Gradle wrapper not found"@)
    } else if !l.has_gradle_dir {
        Some("Invalid project structure: 'gradle' directory not found"@)
    } else if !l.has_build_gradle {
        Some("Invalid project structure: build.gradle not found"@)
    } else if !l.has_settings_gradle {
        Some("Invalid project structure: settings.gradle not found"@)
    } else {
        None
    }
}

/// Checks a project layout; the error is the first problem found.
pub fn validate_project_structure(layout: &ProjectLayout) -> (r: Result<(), String>)
    ensures
        match layout_problem(*layout) {
            Some(m) => r matches Err(e) && e@ == m,
            None => r is Ok,
        },
{
    if !layout.has_app_dir {
        Err(String::from_str("Invalid project structure: 'app' directory not found"))
    } else if !layout.has_gradle_wrapper {
        Err(String::from_str("Invalid project structure: Gradle wrapper not found"))
    } else if !layout.has_gradle_dir {
        Err(String::from_str("Invalid project structure: 'gradle' directory not found"))
    } else if !layout.has_build_gradle {
        Err(String::from_str("Invalid project structure: build.gradle not found"))
    } else if !layout.has_settings_gradle {
        Err(String::from_str("Invalid project structure: settings.gradle not found"))
    } else {
        Ok(())
    }
}

/// The text from `a` up to the next `"` (empty when there is none).
pub open spec fn quoted_from(s: Seq<char>, a: int) -> Seq<char> {
    let j = find_char_from(s, '"', a);
    if j >= s.len() {
        Seq::empty()
    } else {
        s.subrange(a, j)
    }
}

/// What follows the first occurrence of `key`, `skip` characters on, up to
/// the next `"`; empty when `key` does not occur.
pub open spec fn quoted_after(s: Seq<char>, key: Seq<char>, skip: int) -> Seq<char> {
    let i = first_occurrence_from(s, key, 0);
    if i < 0 {
        Seq::empty()
    } else {
        quoted_from(s, i + skip)
    }
}

/// The package that a manifest's text declares.
pub open spec fn manifest_package(s: Seq<char>) -> Seq<char> {
    quoted_after(s, "package=\""@, 9)
}

/// The activity name read from a manifest's text: what follows
/// `android:name="` up to the next quote; a name starting with `.` is put
/// after the package.
pub open spec fn manifest_activity(s: Seq<char>) -> Seq<char> {
    let a = quoted_after(s, "android:name=\""@, 14);
    if starts_with_seq(a, "."@) {
        manifest_package(s) + a
    } else {
        a
    }
}

/// The package and activity a manifest gives, when both are non-empty.
pub open spec fn manifest_info(s: Seq<char>) -> Option<(Seq<char>, Seq<char>)> {
    if manifest_package(s).len() > 0 && manifest_activity(s).len() > 0 {
        Some((manifest_package(s), manifest_activity(s)))
    } else {
        None
    }
}

fn quoted_after_exec(s: &Vec<char>, key: &Vec<char>, skip: usize) -> (r: String)
    requires
        skip <= key@.len(),
    ensures
        r@ == quoted_after(s@, key@, skip as int),
{
    proof {
        lemma_first_occurrence(s@, key@, 0);
    }
    let i = match find_from(s, key, 0) {
        Some(i) => {
            assert(i == first_occurrence_from(s@, key@, 0)) by {
                let f = first_occurrence_from(s@, key@, 0);
                if f == -1 {
                    assert(!occurs_at(s@, key@, i as int));
                } else if f < i {
                    assert(!occurs_at(s@, key@, f));
                } else if i < f {
                    assert(!occurs_at(s@, key@, i as int));
                }
            }
            i
        },
        None => {
            assert(first_occurrence_from(s@, key@, 0) == -1) by {
                let f = first_occurrence_from(s@, key@, 0);
                if f != -1 {
                    assert(occurs_at(s@, key@, f));
                }
            }
            return String::new();
        },
    };
    let n = s.len();
    assert(i + key@.len() <= n);
    let from = i + skip;
    proof {
        lemma_find_char_from_bounds(s@, '"', from as int);
    }
    let mut j = from;
    while j < s.len() && s[j] != '"'
        invariant
            from <= j,
            from <= s@.len(),
            j <= s@.len(),
            forall|k: int| from <= k < j ==> s@[k] != '"',
        decreases s@.len() - j,
    {
        j = j + 1;
    }
    assert(j == find_char_from(s@, '"', from as int)) by {
        let f = find_char_from(s@, '"', from as int);
        if f < j {
            assert(s@[f] == '"');
        }
        if j < f {
            assert(s@[j as int] == '"');
        }
    }
    if j >= s.len() {
        String::new()
    } else {
        substring(s, from, j)
    }
}

/// A manifest's package and activity (see `manifest_info`).
pub fn extract_manifest_info(content: &str) -> (r: Option<(String, String)>)
    ensures
        match manifest_info(content@) {
            Some((p, a)) => r matches Some(x) && x.0@ == p && x.1@ == a,
            None => r.is_none(),
        },
{
    let s = to_chars(content);
    let pkg_key = to_chars("package=\"");
    let act_key = to_chars("android:name=\"");
    proof {
        reveal_strlit("package=\"");
        reveal_strlit("android:name=\"");
    }
    let package = quoted_after_exec(&s, &pkg_key, 9);
    let activity0 = quoted_after_exec(&s, &act_key, 14);
    let activity = if str_starts_with(activity0.as_str(), ".") {
        let mut x = package.clone();
        x.append(activity0.as_str());
        x
    } else {
        activity0
    };
    if !package.as_str().is_empty() && !activity.as_str().is_empty() {
        Some((package, activity))
    } else {
        None
    }
}

/// The first line of a Gradle file that names the application id or the
/// namespace, from `i` on.
pub open spec fn first_id_line_from(ls: Seq<Seq<char>>, i: int) -> int
    decreases ls.len() - i,
{
    if i >= ls.len() {
        ls.len() as int
    } else if i >= 0 && (contains_seq(ls[i], "applicationId"@) || contains_seq(ls[i], "namespace"@)) {
        i
    } else {
        first_id_line_from(ls, i + 1)
    }
}

/// The second piece of `line` split at `"`, if it has one.
pub open spec fn second_quoted_piece(line: Seq<char>) -> Option<Seq<char>> {
    let parts = split_seq(line, "\""@);
    if parts.len() > 1 {
        Some(parts[1])
    } else {
        None
    }
}

/// The package that a Gradle build file gives: the second quoted piece of the
/// first line naming the application id or namespace.
pub open spec fn gradle_package(text: Seq<char>) -> Option<Seq<char>> {
    let ls = lines(text);
    let i = first_id_line_from(ls, 0);
    if i >= ls.len() {
        None
    } else {
        second_quoted_piece(ls[i])
    }
}

fn second_quoted_piece_exec(line: &str) -> (r: Option<String>)
    ensures
        opt_str(r) == second_quoted_piece(line@),
{
    proof {
        reveal_strlit("\"");
    }
    let parts = split_str(line, "\"");
    if parts.len() > 1 {
        assert(parts@.map_values(|p: String| p@)[1] == parts@[1]@);
        Some(parts[1].clone())
    } else {
        None
    }
}

proof fn lemma_first_id_line(ls: Seq<Seq<char>>, i: int)
    requires
        0 <= i <= ls.len(),
    ensures
        i <= first_id_line_from(ls, i) <= ls.len(),
        first_id_line_from(ls, i) < ls.len() ==> (contains_seq(ls[first_id_line_from(ls, i)], "applicationId"@)
            || contains_seq(ls[first_id_line_from(ls, i)], "namespace"@)),
        forall|k: int| i <= k < first_id_line_from(ls, i) ==> !(contains_seq(#[trigger] ls[k], "applicationId"@)
            || contains_seq(ls[k], "namespace"@)),
    decreases ls.len() - i,
{
    if i < ls.len() && !(contains_seq(ls[i], "applicationId"@) || contains_seq(ls[i], "namespace"@)) {
        lemma_first_id_line(ls, i + 1);
    }
}

/// The package that a Gradle build file gives (see `gradle_package`).
pub fn extract_package_from_gradle(content: &str) -> (r: Option<String>)
    ensures
        opt_str(r) == gradle_package(content@),
{
    let ls = lines_of(content);
    let ghost lv = lines(content@);
    proof {
        lemma_first_id_line(lv, 0);
    }
    let mut i: usize = 0;
    while i < ls.len()
        invariant
            strs_view(ls@) == lv,
            lv == lines(content@),
            i <= ls@.len(),
            forall|k: int| 0 <= k < i ==> !(contains_seq(#[trigger] lv[k], "applicationId"@)
                || contains_seq(lv[k], "namespace"@)),
        decreases ls@.len() - i,
    {
        assert(strs_view(ls@)[i as int] == ls@[i as int]@);
        if str_contains(ls[i].as_str(), "applicationId") || str_contains(ls[i].as_str(), "namespace") {
            proof {
                let f = first_id_line_from(lv, 0);
                lemma_first_id_line(lv, 0);
                if f < i {
                    assert(!(contains_seq(lv[f], "applicationId"@) || contains_seq(lv[f], "namespace"@)));
                }
                if i < f {
                    assert(!(contains_seq(lv[i as int], "applicationId"@) || contains_seq(lv[i as int], "namespace"@)));
                }
                assert(f == i);
                assert(i < lv.len());
            }
            let r = second_quoted_piece_exec(ls[i].as_str());
            assert(opt_str(r) == second_quoted_piece(lv[i as int]));
            return r;
        }
        i = i + 1;
    }
    proof {
        let f = first_id_line_from(lv, 0);
        if f < ls@.len() {
            assert(!(contains_seq(lv[f], "applicationId"@) || contains_seq(lv[f], "namespace"@)));
        }
    }
    None
}

/// Whether `adb devices` printed a device: more than one line.
pub fn devices_connected(adb_output: &str) -> (b: bool)
    ensures
        b == (lines(adb_output@).len() > 1),
{
    let ls = lines_of(adb_output);
    ls.len() > 1
}

/// Whether a status reads as good news.
pub fn status_is_positive(status: &str) -> (b: bool)
    ensures
        b == (contains_seq(status@, "successful"@) || contains_seq(status@, "started"@)),
{
    str_contains(status, "successful") || str_contains(status, "started")
}

/// `kind failed:\nStdout: …\nStderr: …`.
pub open spec fn failure_report(kind: Seq<char>, stdout: Seq<char>, stderr: Seq<char>) -> Seq<char> {
    kind + " failed:\nStdout: "@ + stdout + "\nStderr: "@ + stderr
}

/// The result of a build, install or launch command: `done` when it
/// succeeded, else its output in a report.
pub fn command_result(kind: &str, success: bool, done: &str, stdout: &str, stderr: &str) -> (r: Result<String, String>)
    ensures
        success ==> (r matches Ok(m) && m@ == done@),
        !success ==> (r matches Err(e) && e@ == failure_report(kind@, stdout@, stderr@)),
{
    if success {
        Ok(String::from_str(done))
    } else {
        let mut e = String::from_str(kind);
        e.append(" failed:\nStdout: ");
        e.append(stdout);
        e.append("\nStderr: ");
        e.append(stderr);
        Err(e)
    }
}

/// The stages of deploying the app.
#[derive(Debug, Clone, Copy, PartialEq, Eq, Structural)]
pub enum DeployStage {
    Build,
    Install,
    Launch,
}

/// What a stage's result leads to: the status to show and the next stage.
pub fn deploy_progress(stage: DeployStage, result: Result<String, String>) -> (r: (String, Option<DeployStage>))
    ensures
        match (stage, result) {
            (DeployStage::Build, Ok(_)) => r.0@ == "Build successful, installing app..."@ && r.1 == Some(DeployStage::Install),
            (DeployStage::Build, Err(e)) => r.0@ == "Build failed: "@ + e@ && r.1.is_none(),
            (DeployStage::Install, Ok(_)) => r.0@ == "Installation successful, launching app..."@ && r.1 == Some(DeployStage::Launch),
            (DeployStage::Install, Err(e)) => r.0@ == "Installation failed: "@ + e@ && r.1.is_none(),
            (DeployStage::Launch, Ok(m)) => r.0@ == m@ && r.1.is_none(),
            (DeployStage::Launch, Err(e)) => r.0@ == "Launch failed: "@ + e@ && r.1.is_none(),
        },
{
    match (stage, result) {
        (DeployStage::Build, Ok(_)) => (String::from_str("Build successful, installing app..."), Some(DeployStage::Install)),
        (DeployStage::Build, Err(e)) => {
            let mut m = String::from_str("Build failed: ");
            m.append(e.as_str());
            (m, None)
        },
        (DeployStage::Install, Ok(_)) => (String::from_str("Installation successful, launching app..."), Some(DeployStage::Launch)),
        (DeployStage::Install, Err(e)) => {
            let mut m = String::from_str("Installation failed: ");
            m.append(e.as_str());
            (m, None)
        },
        (DeployStage::Launch, Ok(m)) => (m, None),
        (DeployStage::Launch, Err(e)) => {
            let mut m = String::from_str("Launch failed: ");
            m.append(e.as_str());
            (m, None)
        },
    }
}

/// The component that `am start -n` launches: `package/activity`.
pub fn launch_component(package_name: &str, activity_name: &str) -> (r: String)
    ensures
        r@ == package_name@ + "/"@ + activity_name@,
{
    let mut r = String::from_str(package_name);
    r.append("/");
    r.append(activity_name);
    r
}

/// What pressing Run leads to.
pub enum RunDecision {
    /// Refused: no device.
    NoDevice,
    /// Refused: no project.
    NoProject,
    /// Deploy, starting the screen mirror first when it is not running.
    Deploy { start_mirror: bool },
}

/// The panel's state.
pub struct EmulatorPanel {
    pub scrcpy_running: bool,
    pub device_connected: bool,
    pub project_path: Option<String>,
    pub last_build_status: Option<String>,
    pub app_package_name: String,
    pub app_activity_name: String,
    pub is_initializing: bool,
    pub is_building: bool,
    pub scrcpy_path: Option<String>,
}

impl EmulatorPanel {
    /// A panel that is still looking for devices, with the mirror tool found
    /// at `scrcpy_path`, if anywhere.
    pub fn new(scrcpy_path: Option<String>) -> (p: Self)
        ensures
            !p.scrcpy_running,
            !p.device_connected,
            p.project_path.is_none(),
            p.last_build_status.is_none(),
            p.app_package_name@.len() == 0,
            p.app_activity_name@.len() == 0,
            p.is_initializing,
            !p.is_building,
            p.scrcpy_path == scrcpy_path,
    {
        EmulatorPanel {
            scrcpy_running: false,
            device_connected: false,
            project_path: None,
            last_build_status: None,
            app_package_name: String::new(),
            app_activity_name: String::new(),
            is_initializing: true,
            is_building: false,
            scrcpy_path,
        }
    }

    /// Ends the search for devices started with the panel: `adb_output` is
    /// what `adb devices` printed, or nothing when it could not run, in which
    /// case what was known of the device stays.
    pub fn devices_checked(&mut self, adb_output: Option<&str>)
        ensures
            !final(self).is_initializing,
            final(self).device_connected == match adb_output {
                Some(out) => lines(out@).len() > 1,
                None => old(self).device_connected,
            },
            *final(self) == (EmulatorPanel {
                is_initializing: false,
                device_connected: final(self).device_connected,
                ..*old(self)
            }),
    {
        match adb_output {
            Some(out) => {
                self.device_connected = devices_connected(out);
            },
            None => {},
        }
        self.is_initializing = false;
    }

    /// Sets the status line.
    pub fn update_status(&mut self, status: Option<String>)
        ensures
            final(self).last_build_status == status,
            final(self).project_path == old(self).project_path,
            final(self).app_package_name == old(self).app_package_name,
            final(self).app_activity_name == old(self).app_activity_name,
    {
        self.last_build_status = status;
    }

    /// Whether the file browser's project should be taken up: it is set and
    /// differs from the panel's.
    pub fn should_follow_file_modal(&self, file_modal_project_path: &Option<String>) -> (b: bool)
        ensures
            b == (file_modal_project_path.is_some() && opt_str(*file_modal_project_path) != opt_str(
                self.project_path,
            )),
    {
        match file_modal_project_path {
            Some(p) => match &self.project_path {
                Some(q) => !str_eq(p.as_str(), q.as_str()),
                None => true,
            },
            None => false,
        }
    }

    /// Takes up the project at `path`, given what the disk shows of it and the
    /// texts of its manifest and Gradle build file (when they could be read).
    pub fn set_project_path(
        &mut self,
        path: String,
        layout: &ProjectLayout,
        manifest: Option<String>,
        gradle: Option<String>,
    )
        ensures
            match layout_problem(*layout) {
                Some(m) => {
                    &&& opt_str(final(self).last_build_status) == Some(m)
                    &&& final(self).project_path == old(self).project_path
                    &&& final(self).app_package_name == old(self).app_package_name
                    &&& final(self).app_activity_name == old(self).app_activity_name
                },
                None => {
                    &&& final(self).project_path == Some(path)
                    &&& match (if manifest is Some { manifest_info(manifest.unwrap()@) } else { None }) {
                        Some((p, a)) => {
                            &&& final(self).app_package_name@ == p
                            &&& final(self).app_activity_name@ == a
                            &&& opt_str(final(self).last_build_status) == Some(
                                "Project configured. Package: "@ + p + ", Activity: "@ + a,
                            )
                        },
                        None => match (if gradle is Some { gradle_package(gradle.unwrap()@) } else { None }) {
                            Some(p) => {
                                &&& final(self).app_package_name@ == p
                                &&& final(self).app_activity_name@ == p + ".MainActivity"@
                                &&& opt_str(final(self).last_build_status) == Some(
                                    "Package name found in gradle, but please verify the activity name is correct."@,
                                )
                            },
                            None => {
                                &&& final(self).app_package_name == old(self).app_package_name
                                &&& final(self).app_activity_name == old(self).app_activity_name
                                &&& opt_str(final(self).last_build_status) == Some(
                                    "Could not detect package info. Please configure manually."@,
                                )
                            },
                        },
                    }
                },
            },
    {
        match validate_project_structure(layout) {
            Err(e) => {
                self.update_status(Some(e));
                return;
            },
            Ok(()) => {},
        }
        self.project_path = Some(path);
        let info = match &manifest {
            Some(m) => extract_manifest_info(m.as_str()),
            None => None,
        };
        match info {
            Some((p, a)) => {
                let mut status = String::from_str("Project configured. Package: ");
                status.append(p.as_str());
                status.append(", Activity: ");
                status.append(a.as_str());
                self.app_package_name = p;
                self.app_activity_name = a;
                self.last_build_status = Some(status);
            },
            None => {
                let pkg = match &gradle {
                    Some(g) => extract_package_from_gradle(g.as_str()),
                    None => None,
                };
                match pkg {
                    Some(p) => {
                        let mut activity = p.clone();
                        activity.append(".MainActivity");
                        self.app_package_name = p;
                        self.app_activity_name = activity;
                        self.last_build_status = Some(
                            String::from_str(
                                "Package name found in gradle, but please verify the activity name is correct.",
                            ),
                        );
                    },
                    None => {
                        self.last_build_status = Some(
                            String::from_str("Could not detect package info. Please configure manually."),
                        );
                    },
                }
            },
        }
    }

    /// What pressing Run leads to, with the device state just checked; a
    /// refusal sets the status.
    pub fn run_app(&mut self, device_connected: bool) -> (d: RunDecision)
        ensures
            final(self).device_connected == device_connected,
            !device_connected ==> d is NoDevice && opt_str(final(self).last_build_status) == Some(
                "No device connected"@,
            ),
            device_connected && old(self).project_path.is_none() ==> d is NoProject && opt_str(
                final(self).last_build_status,
            ) == Some("Please select an Android project directory first"@),
            device_connected && old(self).project_path.is_some() ==> d == (RunDecision::Deploy {
                start_mirror: !old(self).scrcpy_running,
            }) && final(self).last_build_status == old(self).last_build_status,
            final(self).project_path == old(self).project_path,
            final(self).scrcpy_running == old(self).scrcpy_running,
    {
        self.device_connected = device_connected;
        if !device_connected {
            self.last_build_status = Some(String::from_str("No device connected"));
            return RunDecision::NoDevice;
        }
        if self.project_path.is_none() {
            self.last_build_status = Some(String::from_str("Please select an Android project directory first"));
            return RunDecision::NoProject;
        }
        RunDecision::Deploy { start_mirror: !self.scrcpy_running }
    }

    /// The screen mirror started.
    pub fn scrcpy_started(&mut self)
        ensures
            final(self).scrcpy_running,
            opt_str(final(self).last_build_status) == Some("Screen mirroring started"@),
    {
        self.scrcpy_running = true;
        self.last_build_status = Some(String::from_str("Screen mirroring started"));
    }

    /// The screen mirror could not start.
    pub fn scrcpy_failed(&mut self, error: &str)
        ensures
            final(self).scrcpy_running == old(self).scrcpy_running,
            opt_str(final(self).last_build_status) == Some("Failed to start scrcpy: "@ + error@),
    {
        let mut m = String::from_str("Failed to start scrcpy: ");
        m.append(error);
        self.last_build_status = Some(m);
    }

    /// There is no screen mirror tool.
    pub fn scrcpy_missing(&mut self)
        ensures
            final(self).scrcpy_running == old(self).scrcpy_running,
            opt_str(final(self).last_build_status) == Some("scrcpy executable not found"@),
    {
        self.last_build_status = Some(String::from_str("scrcpy executable not found"));
    }

    /// The screen mirror stopped.
    pub fn scrcpy_stopped(&mut self)
        ensures
            !final(self).scrcpy_running,
            opt_str(final(self).last_build_status) == Some("Screen mirroring stopped"@),
    {
        self.scrcpy_running = false;
        self.last_build_status = Some(String::from_str("Screen mirroring stopped"));
    }
}

} // verus!
