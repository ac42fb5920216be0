//! Where the Android build resources live and where they are fetched from.
use vstd::prelude::*;
use vstd::string::StringExecFns;
use crate::paths::{path_join, join_path};

verus! {

/// The Gradle, build-tools and platform-tools versions used, the API levels
/// fetched so far, and the directory that holds them.
pub struct AndroidResources {
    pub gradle_version: String,
    pub build_tools_version: String,
    pub platform_tools_version: String,
    pub downloaded_apis: Vec<String>,
    pub resources_path: String,
}

/// One Gradle file to fetch: where from, its path relative to the Gradle
/// directory, and where it ends up.
pub struct GradleFile {
    pub url: String,
    pub relative_path: String,
    pub destination: String,
}

/// The path of a Gradle file relative to the Gradle directory, and its path in
/// the Gradle repository.
pub open spec fn gradle_file_paths() -> Seq<(Seq<char>, Seq<char>)> {
    seq![
        ("gradlew"@, "gradlew"@),
        ("gradlew.bat"@, "gradlew.bat"@),
        ("wrapper/gradle-wrapper.jar"@, "gradle/wrapper/gradle-wrapper.jar"@),
        ("wrapper/gradle-wrapper.properties"@, "gradle/wrapper/gradle-wrapper.properties"@),
    ]
}

/// The address of a file of the Gradle repository at a version.
pub open spec fn gradle_url(version: Seq<char>, source: Seq<char>) -> Seq<char> {
    "https://raw.githubusercontent.com/gradle/gradle/v"@ + version + "/"@ + source
}

/// The address of the platform archive of an API level.
pub open spec fn platform_url_of(api_level: Seq<char>) -> Seq<char> {
    "https://dl.google.com/android/repository/platform-"@ + api_level + ".zip"@
}

impl AndroidResources {
    /// The resources kept under `config_dir`, with the default versions and no
    /// API level fetched.
    pub fn new(config_dir: &str) -> (r: Self)
        ensures
            r.resources_path@ == path_join(config_dir@, "android_resources"@),
            r.gradle_version@ == "8.2.1"@,
            r.build_tools_version@ == "34.0.0"@,
            r.platform_tools_version@ == "34.0.5"@,
            r.downloaded_apis@.len() == 0,
    {
        AndroidResources {
            gradle_version: String::from_str("8.2.1"),
            build_tools_version: String::from_str("34.0.0"),
            platform_tools_version: String::from_str("34.0.5"),
            downloaded_apis: Vec::new(),
            resources_path: join_path(config_dir, "android_resources"),
        }
    }

    /// The directory of the Gradle files.
    pub fn get_gradle_path(&self) -> (p: String)
        ensures
            p@ == path_join(self.resources_path@, "gradle"@),
    {
        join_path(self.resources_path.as_str(), "gradle")
    }

    /// The directory of an API level's platform.
    pub fn get_platform_path(&self, api_level: &str) -> (p: String)
        ensures
            p@ == path_join(path_join(self.resources_path@, "platforms"@), "android-"@ + api_level@),
    {
        let mut name = String::from_str("android-");
        name.append(api_level);
        join_path(join_path(self.resources_path.as_str(), "platforms").as_str(), name.as_str())
    }

    /// The Gradle files to fetch, in order, for the configured Gradle version.
    pub fn gradle_downloads(&self) -> (r: Vec<GradleFile>)
        ensures
            r@.len() == gradle_file_paths().len(),
            forall|k: int|
                0 <= k < r@.len() ==> {
                    &&& (#[trigger] r@[k]).url@ == gradle_url(self.gradle_version@, gradle_file_paths()[k].1)
                    &&& r@[k].relative_path@ == gradle_file_paths()[k].0
                    &&& r@[k].destination@ == path_join(
                        path_join(self.resources_path@, "gradle"@),
                        gradle_file_paths()[k].0,
                    )
                },
    {
        let gradle_dir = self.get_gradle_path();
        let mut r: Vec<GradleFile> = Vec::new();
        r.push(self.gradle_file(&gradle_dir, "gradlew", "gradlew"));
        r.push(self.gradle_file(&gradle_dir, "gradlew.bat", "gradlew.bat"));
        r.push(self.gradle_file(&gradle_dir, "wrapper/gradle-wrapper.jar", "gradle/wrapper/gradle-wrapper.jar"));
        r.push(
            self.gradle_file(
                &gradle_dir,
                "wrapper/gradle-wrapper.properties",
                "gradle/wrapper/gradle-wrapper.properties",
            ),
        );
        r
    }

    fn gradle_file(&self, gradle_dir: &String, relative: &str, source: &str) -> (f: GradleFile)
        ensures
            f.url@ == gradle_url(self.gradle_version@, source@),
            f.relative_path@ == relative@,
            f.destination@ == path_join(gradle_dir@, relative@),
    {
        let mut url = String::from_str("https://raw.githubusercontent.com/gradle/gradle/v");
        url.append(self.gradle_version.as_str());
        url.append("/");
        url.append(source);
        GradleFile {
            url,
            relative_path: String::from_str(relative),
            destination: join_path(gradle_dir.as_str(), relative),
        }
    }

    /// The address of an API level's platform archive.
    pub fn platform_url(api_level: &str) -> (u: String)
        ensures
            u@ == platform_url_of(api_level@),
    {
        let mut u = String::from_str("https://dl.google.com/android/repository/platform-");
        u.append(api_level);
        u.append(".zip");
        u
    }
}

} // verus!
