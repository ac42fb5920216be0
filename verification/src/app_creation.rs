//! Creating an Android app project: the directories to make, the files to
//! write with their text, and the Gradle files to copy, in order.
use vstd::prelude::*;
use vstd::string::StringExecFns;
use crate::paths::{path_join, join_path};
use crate::text::{decimal, decimal_string, to_chars, push_char};

verus! {

pub const ICON_XML_HEAD: &'static str = r#"<?xml version="1.0" encoding="utf-8"?>
<adaptive-icon xmlns:android="http://schemas.android.com/apk/res/android">
    <background android:drawable="@android:color/white"/>
    <foreground>
        <inset
            android:drawable="@android:color/holo_blue_dark"
            android:inset=""#;

pub const ICON_XML_TAIL: &'static str = r#""/>
    </foreground>
</adaptive-icon>"#;

pub const BASE_ICON_XML: &'static str = r#"<?xml version="1.0" encoding="utf-8"?>
<shape xmlns:android="http://schemas.android.com/apk/res/android"
    android:shape="rectangle">
    <solid android:color="@android:color/holo_blue_dark"/>
    <corners android:radius="8dp"/>
</shape>"#;

pub const ROOT_BUILD_GRADLE: &'static str = r#"buildscript {
    repositories {
        google()
        mavenCentral()
    }
    dependencies {
        classpath("com.android.tools.build:gradle:8.2.1")
        classpath("org.jetbrains.kotlin:kotlin-gradle-plugin:1.9.0")
    }
}"#;

pub const APP_BUILD_GRADLE_HEAD: &'static str = r#"plugins {
    id("com.android.application")
    id("org.jetbrains.kotlin.android")
}

android {
    namespace = "com.example.app"
    compileSdk = "#;

pub const APP_BUILD_GRADLE_TAIL: &'static str = r#"
    // ...rest of existing android config...
}
"#;

pub const SETTINGS_GRADLE_HEAD: &'static str = r#"pluginManagement {
    repositories {
        google()
        mavenCentral()
        gradlePluginPortal()
    }
}
dependencyResolutionManagement {
    repositoriesMode.set(RepositoriesMode.FAIL_ON_PROJECT_REPOS)
    repositories {
        google()
        mavenCentral()
    }
}

rootProject.name = ""#;

pub const SETTINGS_GRADLE_TAIL: &'static str = r#""
include(":app")
"#;

pub const BUILD_GRADLE_HEAD: &'static str = r#"plugins {
        id("com.android.application")
        id("org.jetbrains.kotlin.android")
    }
    
    android {
        namespace = "com.example.app"
        compileSdk = "#;

pub const BUILD_GRADLE_MID: &'static str = r#"
    
        defaultConfig {
            applicationId = "com.example.app"
            minSdk = 24
            targetSdk = "#;

pub const BUILD_GRADLE_TAIL: &'static str = r#"
            versionCode = 1
            versionName = "1.0"
    
            testInstrumentationRunner = "androidx.test.runner.AndroidJUnitRunner"
            vectorDrawables {
                useSupportLibrary = true
            }
        }
    
        buildTypes {
            release {
                isMinifyEnabled = false
                proguardFiles(
                    getDefaultProguardFile("proguard-android-optimize.txt"),
                    "proguard-rules.pro"
                )
            }
        }
        
        compileOptions {
            sourceCompatibility = JavaVersion.VERSION_17
            targetCompatibility = JavaVersion.VERSION_17
        }
        
        kotlinOptions {
            jvmTarget = "17"
        }
        
        buildFeatures {
            compose = true
        }
        
        composeOptions {
            kotlinCompilerExtensionVersion = "1.5.1"
        }
        
        packaging {
            resources {
                excludes += "/META-INF/{AL2.0,LGPL2.1}"
            }
        }
    }
    
    dependencies {
        implementation("androidx.core:core-ktx:1.12.0")
        implementation("androidx.lifecycle:lifecycle-runtime-ktx:2.7.0")
        implementation("androidx.activity:activity-compose:1.8.2")
        implementation(platform("androidx.compose:compose-bom:2023.08.00"))
        implementation("androidx.compose.ui:ui")
        implementation("androidx.compose.ui:ui-graphics")
        implementation("androidx.compose.ui:ui-tooling-preview")
        implementation("androidx.compose.material3:material3")
        testImplementation("junit:junit:4.13.2")
        androidTestImplementation("androidx.test.ext:junit:1.1.5")
        androidTestImplementation("androidx.test.espresso:espresso-core:3.5.1")
        androidTestImplementation(platform("androidx.compose:compose-bom:2023.08.00"))
        androidTestImplementation("androidx.compose.ui:ui-test-junit4")
        debugImplementation("androidx.compose.ui:ui-tooling")
        debugImplementation("androidx.compose.ui:ui-test-manifest")
    }
    "#;

pub const SETTINGS_GRADLE_DEFAULT: &'static str = r#"pluginManagement {
        repositories {
            google()
            mavenCentral()
            gradlePluginPortal()
        }
    }
    dependencyResolutionManagement {
        repositoriesMode.set(RepositoriesMode.FAIL_ON_PROJECT_REPOS)
        repositories {
            google()
            mavenCentral()
        }
    }
    
    rootProject.name = "MyApplication"
    include(":app")
    "#;

pub const GRADLE_PROPERTIES: &'static str = r#"org.gradle.jvmargs=-Xmx2048m -Dfile.encoding=UTF-8
android.useAndroidX=true
android.enableJetifier=true
kotlin.code.style=official
org.gradle.parallel=true
org.gradle.caching=true
"#;

pub const MAIN_ACTIVITY_KT: &'static str = r#"package com.example.app
    
    import android.os.Bundle
    import androidx.activity.ComponentActivity
    import androidx.activity.compose.setContent
    import androidx.compose.foundation.layout.fillMaxSize
    import androidx.compose.material3.MaterialTheme
    import androidx.compose.material3.Surface
    import androidx.compose.material3.Text
    import androidx.compose.runtime.Composable
    import androidx.compose.ui.Modifier
    import androidx.compose.ui.tooling.preview.Preview
    
    class MainActivity : ComponentActivity() {
        override fun onCreate(savedInstanceState: Bundle?) {
            super.onCreate(savedInstanceState)
            setContent {
                AppTheme {
                    Surface(
                        modifier = Modifier.fillMaxSize(),
                        color = MaterialTheme.colorScheme.background
                    ) {
                        Greeting("Android")
                    }
                }
            }
        }
    }
    
    @Composable
    fun Greeting(name: String, modifier: Modifier = Modifier) {
        Text(
            text = "Hello $name!",
            modifier = modifier
        )
    }
    
    @Preview(showBackground = true)
    @Composable
    fun GreetingPreview() {
        AppTheme {
            Greeting("Android")
        }
    }
    "#;

pub const THEME_KT: &'static str = r#"package com.example.app
    
    import android.app.Activity
    import android.os.Build
    import androidx.compose.foundation.isSystemInDarkTheme
    import androidx.compose.material3.MaterialTheme
    import androidx.compose.material3.darkColorScheme
    import androidx.compose.material3.dynamicDarkColorScheme
    import androidx.compose.material3.dynamicLightColorScheme
    import androidx.compose.material3.lightColorScheme
    import androidx.compose.runtime.Composable
    import androidx.compose.runtime.SideEffect
    import androidx.compose.ui.graphics.toArgb
    import androidx.compose.ui.platform.LocalContext
    import androidx.compose.ui.platform.LocalView
    import androidx.core.view.WindowCompat
    
    private val DarkColorScheme = darkColorScheme()
    private val LightColorScheme = lightColorScheme()
    
    @Composable
    fun AppTheme(
        darkTheme: Boolean = isSystemInDarkTheme(),
        dynamicColor: Boolean = true,
        content: @Composable () -> Unit
    ) {
        val colorScheme = when {
            dynamicColor && Build.VERSION.SDK_INT >= Build.VERSION_CODES.S -> {
                val context = LocalContext.current
                if (darkTheme) dynamicDarkColorScheme(context) else dynamicLightColorScheme(context)
            }
            darkTheme -> DarkColorScheme
            else -> LightColorScheme
        }
        val view = LocalView.current
        if (!view.isInEditMode) {
            SideEffect {
                val window = (view.context as Activity).window
                window.statusBarColor = colorScheme.primary.toArgb()
                WindowCompat.getInsetsController(window, view).isAppearanceLightStatusBars = darkTheme
            }
        }
    
        MaterialTheme(
            colorScheme = colorScheme,
            content = content
        )
    }
    "#;

pub const ANDROID_MANIFEST_XML: &'static str = r#"<?xml version="1.0" encoding="utf-8"?>
    <manifest xmlns:android="http://schemas.android.com/apk/res/android"
        xmlns:tools="http://schemas.android.com/tools">
    
        <application
            android:allowBackup="true"
            android:dataExtractionRules="@xml/data_extraction_rules"
            android:fullBackupContent="@xml/backup_rules"
            android:icon="@mipmap/ic_launcher"
            android:label="@string/app_name"
            android:roundIcon="@mipmap/ic_launcher_round"
            android:supportsRtl="true"
            android:theme="@style/Theme.App"
            tools:targetApi="31">
            <activity
                android:name=".MainActivity"
                android:exported="true"
                android:theme="@style/Theme.App">
                <intent-filter>
                    <action android:name="android.intent.action.MAIN" />
                    <category android:name="android.intent.category.LAUNCHER" />
                </intent-filter>
            </activity>
        </application>
    </manifest>"#;

pub const STRINGS_XML_HEAD: &'static str = r#"<?xml version="1.0" encoding="utf-8"?>
    <resources>
        <string name="app_name">"#;

pub const STRINGS_XML_TAIL: &'static str = r#"</string>
    </resources>"#;

pub const THEMES_XML: &'static str = r#"<?xml version="1.0" encoding="utf-8"?>
    <resources>
        <style name="Theme.App" parent="android:Theme.Material.Light.NoActionBar" />
    </resources>"#;

pub const BACKUP_RULES_XML: &'static str = r#"<?xml version="1.0" encoding="utf-8"?>
    <full-backup-content>
        <include domain="sharedpref" path="."/>
        <exclude domain="sharedpref" path="device.xml"/>
    </full-backup-content>"#;

pub const DATA_EXTRACTION_RULES_XML: &'static str = r#"<?xml version="1.0" encoding="utf-8"?>
    <data-extraction-rules>
        <cloud-backup>
            <include domain="sharedpref" path="."/>
            <exclude domain="sharedpref" path="device.xml"/>
        </cloud-backup>
        <device-transfer>
            <include domain="sharedpref" path="."/>
            <exclude domain="sharedpref" path="device.xml"/>
        </device-transfer>
    </data-extraction-rules>"#;

pub const EXAMPLE_UNIT_TEST_KT: &'static str = r#"package com.example.app
    
    import org.junit.Test
    import org.junit.Assert.*
    
    class ExampleUnitTest {
        @Test
        fun addition_isCorrect() {
            assertEquals(4, 2 + 2)
        }
    }"#;

pub const EXAMPLE_INSTRUMENTED_TEST_KT: &'static str = r#"package com.example.app
    
    import androidx.test.platform.app.InstrumentationRegistry
    import androidx.test.ext.junit.runners.AndroidJUnit4
    import org.junit.Test
    import org.junit.runner.RunWith
    import org.junit.Assert.*
    
    @RunWith(AndroidJUnit4::class)
    class ExampleInstrumentedTest {
        @Test
        fun useAppContext() {
            val appContext = InstrumentationRegistry.getInstrumentation().targetContext
            assertEquals("com.example.app", appContext.packageName)
        }
    }"#;

pub const GITIGNORE: &'static str = r#"*.iml
    .gradle
    /local.properties
    /.idea
    .DS_Store
    /build
    /captures
    .externalNativeBuild
    .cxx
    local.properties"#;

/// One step of creating a project.
pub enum Step {
    /// Make this directory (and its missing parents).
    CreateDir(String),
    /// Write this text to this file.
    WriteFile(String, String),
    /// Copy the first file to the second.
    CopyFile(String, String),
    /// Report this line.
    Log(String),
    /// Report progress, in hundredths of the whole.
    Progress(u32),
    /// Make sure the Gradle files to copy are at hand.
    FetchGradleFiles,
}

/// A step as plain values: its kind (0 directory, 1 write, 2 copy, 3 report,
/// 4 progress, 5 fetching the Gradle files), its texts and its progress.
pub open spec fn step_view(s: Step) -> (int, Seq<char>, Seq<char>, int) {
    match s {
        Step::CreateDir(p) => (0, p@, Seq::empty(), 0),
        Step::WriteFile(p, c) => (1, p@, c@, 0),
        Step::CopyFile(a, b) => (2, a@, b@, 0),
        Step::Log(m) => (3, m@, Seq::empty(), 0),
        Step::Progress(n) => (4, Seq::empty(), Seq::empty(), n as int),
        Step::FetchGradleFiles => (5, Seq::empty(), Seq::empty(), 0),
    }
}

/// The views of a sequence of steps.
pub open spec fn steps_view(v: Seq<Step>) -> Seq<(int, Seq<char>, Seq<char>, int)> {
    Seq::new(v.len(), |i: int| step_view(v[i]))
}

pub open spec fn dir_step(p: Seq<char>) -> (int, Seq<char>, Seq<char>, int) {
    (0, p, Seq::empty(), 0)
}

pub open spec fn write_step(p: Seq<char>, c: Seq<char>) -> (int, Seq<char>, Seq<char>, int) {
    (1, p, c, 0)
}

pub open spec fn copy_step(a: Seq<char>, b: Seq<char>) -> (int, Seq<char>, Seq<char>, int) {
    (2, a, b, 0)
}

pub open spec fn log_step(m: Seq<char>) -> (int, Seq<char>, Seq<char>, int) {
    (3, m, Seq::empty(), 0)
}

pub open spec fn progress_step(n: int) -> (int, Seq<char>, Seq<char>, int) {
    (4, Seq::empty(), Seq::empty(), n)
}

pub open spec fn fetch_step() -> (int, Seq<char>, Seq<char>, int) {
    (5, Seq::empty(), Seq::empty(), 0)
}

/// A directory of the layout, made as the `i`-th, and the progress after it.
pub open spec fn layout_dir(p: Seq<char>, i: int) -> Seq<(int, Seq<char>, Seq<char>, int)> {
    seq![dir_step(p), progress_step(50 + 5 * i)]
}

/// `base` joined with four further components.
pub open spec fn join4(base: Seq<char>, a: Seq<char>, b: Seq<char>, c: Seq<char>, d: Seq<char>) -> Seq<char> {
    path_join(path_join(path_join(path_join(base, a), b), c), d)
}

/// `s` with each backslash doubled (`str::replace("\\", "\\\\")`).
pub open spec fn escape_backslashes(s: Seq<char>) -> Seq<char>
    decreases s.len(),
{
    if s.len() == 0 {
        Seq::empty()
    } else {
        escape_backslashes(s.drop_last()) + if s.last() == '\\' {
            seq!['\\', '\\']
        } else {
            seq![s.last()]
        }
    }
}

/// `s` with each backslash doubled.
pub fn escape_backslashes_str(s: &str) -> (r: String)
    ensures
        r@ == escape_backslashes(s@),
{
    let v = to_chars(s);
    let mut r = String::new();
    let mut i: usize = 0;
    while i < v.len()
        invariant
            v@ == s@,
            i <= v@.len(),
            r@ == escape_backslashes(s@.take(i as int)),
        decreases v@.len() - i,
    {
        assert(s@.take(i + 1).drop_last() =~= s@.take(i as int));
        if v[i] == '\\' {
            push_char(&mut r, '\\');
            push_char(&mut r, '\\');
        } else {
            push_char(&mut r, v[i]);
        }
        i = i + 1;
        assert(r@ =~= escape_backslashes(s@.take(i as int)));
    }
    assert(s@.take(v@.len() as int) =~= s@);
    r
}

pub open spec fn app_dir(pd: Seq<char>) -> Seq<char> {
    path_join(pd, "app"@)
}

pub open spec fn src_main_dir(pd: Seq<char>) -> Seq<char> {
    path_join(path_join(app_dir(pd), "src"@), "main"@)
}

pub open spec fn src_test_dir(pd: Seq<char>) -> Seq<char> {
    path_join(path_join(app_dir(pd), "src"@), "test"@)
}

pub open spec fn src_android_test_dir(pd: Seq<char>) -> Seq<char> {
    path_join(path_join(app_dir(pd), "src"@), "androidTest"@)
}

pub open spec fn kotlin_dir(pd: Seq<char>) -> Seq<char> {
    join4(src_main_dir(pd), "kotlin"@, "com"@, "example"@, "app"@)
}

pub open spec fn res_dir(pd: Seq<char>) -> Seq<char> {
    path_join(src_main_dir(pd), "res"@)
}

pub open spec fn java_test_dir(pd: Seq<char>) -> Seq<char> {
    join4(src_test_dir(pd), "java"@, "com"@, "example"@, "app"@)
}

pub open spec fn java_android_test_dir(pd: Seq<char>) -> Seq<char> {
    join4(src_android_test_dir(pd), "java"@, "com"@, "example"@, "app"@)
}

pub open spec fn gradle_wrapper_dir(pd: Seq<char>) -> Seq<char> {
    path_join(path_join(pd, "gradle"@), "wrapper"@)
}

/// The root directories of a project rooted at `pd`, with their reports.
pub open spec fn root_steps(pd: Seq<char>) -> Seq<(int, Seq<char>, Seq<char>, int)> {
    seq![
        log_step("Creating project structure..."@), dir_step(pd), dir_step(app_dir(pd)),
        log_step("Created root directories"@), progress_step(50),
        log_step("Creating Android app directories..."@),
    ]
}

/// The directories inside the app directory, in the order they are made, each
/// followed by the progress (50 hundredths, and 5 more per directory).
pub open spec fn layout_steps(pd: Seq<char>) -> Seq<(int, Seq<char>, Seq<char>, int)> {
    let rd = res_dir(pd);
    layout_dir(src_main_dir(pd), 0) + layout_dir(src_test_dir(pd), 1) + layout_dir(src_android_test_dir(pd), 2)
        + layout_dir(kotlin_dir(pd), 3) + layout_dir(rd, 4) + layout_dir(java_test_dir(pd), 5)
        + layout_dir(java_android_test_dir(pd), 6) + layout_dir(path_join(rd, "layout"@), 7)
        + layout_dir(path_join(rd, "values"@), 8) + layout_dir(path_join(rd, "values-night"@), 9)
        + layout_dir(path_join(rd, "xml"@), 10) + layout_dir(path_join(rd, "mipmap-mdpi"@), 11)
        + layout_dir(path_join(rd, "mipmap-hdpi"@), 12) + layout_dir(path_join(rd, "mipmap-xhdpi"@), 13)
        + layout_dir(path_join(rd, "mipmap-xxhdpi"@), 14) + layout_dir(path_join(rd, "mipmap-xxxhdpi"@), 15)
}

/// The launcher icon for a density whose icon is `size` pixels wide.
pub open spec fn icon_xml(size: nat) -> Seq<char> {
    ICON_XML_HEAD@ + decimal(size / 4) + ICON_XML_TAIL@
}

/// The two launcher icons written into one mipmap directory.
pub open spec fn icon_steps(rd: Seq<char>, dir: Seq<char>, size: nat) -> Seq<(int, Seq<char>, Seq<char>, int)> {
    seq![
        write_step(path_join(path_join(rd, dir), "ic_launcher.xml"@), icon_xml(size)),
        write_step(path_join(path_join(rd, dir), "ic_launcher_round.xml"@), icon_xml(size)),
    ]
}

/// The launcher icons of every density.
pub open spec fn all_icon_steps(pd: Seq<char>) -> Seq<(int, Seq<char>, Seq<char>, int)> {
    let rd = res_dir(pd);
    icon_steps(rd, "mipmap-mdpi"@, 48) + icon_steps(rd, "mipmap-hdpi"@, 72) + icon_steps(
        rd,
        "mipmap-xhdpi"@,
        96,
    ) + icon_steps(rd, "mipmap-xxhdpi"@, 144) + icon_steps(rd, "mipmap-xxxhdpi"@, 192)
}

/// The drawable, the Gradle wrapper directory and the copies of the Gradle files.
pub open spec fn gradle_steps(pd: Seq<char>, gradle_source: Seq<char>) -> Seq<(int, Seq<char>, Seq<char>, int)> {
    let dd = path_join(res_dir(pd), "drawable"@);
    let gw = gradle_wrapper_dir(pd);
    seq![
        dir_step(dd), write_step(path_join(dd, "ic_launcher_foreground.xml"@), BASE_ICON_XML@),
        log_step("Setting up Gradle build system..."@), fetch_step(),
        dir_step(gw),
        copy_step(path_join(gradle_source, "gradlew"@), path_join(pd, "gradlew"@)),
        copy_step(path_join(gradle_source, "gradlew.bat"@), path_join(pd, "gradlew.bat"@)),
        copy_step(path_join(path_join(gradle_source, "wrapper"@), "gradle-wrapper.jar"@), path_join(gw, "gradle-wrapper.jar"@)),
        copy_step(path_join(path_join(gradle_source, "wrapper"@), "gradle-wrapper.properties"@), path_join(gw, "gradle-wrapper.properties"@)),
        progress_step(60),
    ]
}

/// The build, settings, source, resource and test files, in the order written.
pub open spec fn file_steps(pd: Seq<char>, name: Seq<char>, api: Seq<char>, sdk: Seq<char>) -> Seq<(int, Seq<char>, Seq<char>, int)> {
    let ad = app_dir(pd);
    let rd = res_dir(pd);
    seq![
        log_step("Creating build configuration files..."@),
        write_step(path_join(pd, "build.gradle.kts"@), ROOT_BUILD_GRADLE@),
        write_step(path_join(ad, "build.gradle.kts"@), APP_BUILD_GRADLE_HEAD@ + api + APP_BUILD_GRADLE_TAIL@),
        write_step(path_join(pd, "settings.gradle.kts"@), SETTINGS_GRADLE_HEAD@ + name + SETTINGS_GRADLE_TAIL@),
        write_step(path_join(pd, "local.properties"@), "sdk.dir="@ + escape_backslashes(sdk)),
        write_step(path_join(ad, "build.gradle.kts"@), BUILD_GRADLE_HEAD@ + api + BUILD_GRADLE_MID@ + api + BUILD_GRADLE_TAIL@),
        progress_step(80),
        write_step(path_join(pd, "settings.gradle.kts"@), SETTINGS_GRADLE_DEFAULT@),
        log_step("Creating Gradle configuration..."@),
        write_step(path_join(pd, "gradle.properties"@), GRADLE_PROPERTIES@),
        log_step("Creating Android source files..."@),
        write_step(path_join(kotlin_dir(pd), "MainActivity.kt"@), MAIN_ACTIVITY_KT@),
        write_step(path_join(kotlin_dir(pd), "Theme.kt"@), THEME_KT@),
        log_step("Creating Android resource files..."@),
        write_step(path_join(src_main_dir(pd), "AndroidManifest.xml"@), ANDROID_MANIFEST_XML@),
        write_step(path_join(path_join(rd, "values"@), "strings.xml"@), STRINGS_XML_HEAD@ + name + STRINGS_XML_TAIL@),
        write_step(path_join(path_join(rd, "values"@), "themes.xml"@), THEMES_XML@),
        write_step(path_join(path_join(rd, "xml"@), "backup_rules.xml"@), BACKUP_RULES_XML@),
        write_step(path_join(path_join(rd, "xml"@), "data_extraction_rules.xml"@), DATA_EXTRACTION_RULES_XML@),
        log_step("Creating test files..."@),
        write_step(path_join(java_test_dir(pd), "ExampleUnitTest.kt"@), EXAMPLE_UNIT_TEST_KT@),
        write_step(path_join(java_android_test_dir(pd), "ExampleInstrumentedTest.kt"@), EXAMPLE_INSTRUMENTED_TEST_KT@),
        write_step(path_join(pd, ".gitignore"@), GITIGNORE@),
        log_step("Finalizing project setup..."@),
        progress_step(100),
        log_step("App creation completed. Project created at: "@ + pd),
    ]
}

/// Every step of creating the project `name` under `path`, with the lines
/// reported and the progress, in order.
pub open spec fn creation_steps(name: Seq<char>, path: Seq<char>, api: Seq<char>, gradle_source: Seq<char>, sdk: Seq<char>) -> Seq<(int, Seq<char>, Seq<char>, int)> {
    let pd = path_join(path, name);
    root_steps(pd) + layout_steps(pd) + all_icon_steps(pd) + gradle_steps(pd, gradle_source) + file_steps(pd, name, api, sdk)
}

fn push_dir(v: &mut Vec<Step>, p: &String)
    ensures
        steps_view(final(v)@) == steps_view(old(v)@).push(dir_step(p@)),
{
    v.push(Step::CreateDir(p.clone()));
    assert(steps_view(v@) =~= steps_view(old(v)@).push(dir_step(p@)));
}

fn push_write(v: &mut Vec<Step>, p: String, c: String)
    ensures
        steps_view(final(v)@) == steps_view(old(v)@).push(write_step(p@, c@)),
{
    let ghost (pv, cv) = (p@, c@);
    v.push(Step::WriteFile(p, c));
    assert(steps_view(v@) =~= steps_view(old(v)@).push(write_step(pv, cv)));
}

fn push_copy(v: &mut Vec<Step>, a: String, b: String)
    ensures
        steps_view(final(v)@) == steps_view(old(v)@).push(copy_step(a@, b@)),
{
    let ghost (av, bv) = (a@, b@);
    v.push(Step::CopyFile(a, b));
    assert(steps_view(v@) =~= steps_view(old(v)@).push(copy_step(av, bv)));
}

fn push_log(v: &mut Vec<Step>, m: &str)
    ensures
        steps_view(final(v)@) == steps_view(old(v)@).push(log_step(m@)),
{
    v.push(Step::Log(String::from_str(m)));
    assert(steps_view(v@) =~= steps_view(old(v)@).push(log_step(m@)));
}

fn push_progress(v: &mut Vec<Step>, n: u32)
    ensures
        steps_view(final(v)@) == steps_view(old(v)@).push(progress_step(n as int)),
{
    v.push(Step::Progress(n));
    assert(steps_view(v@) =~= steps_view(old(v)@).push(progress_step(n as int)));
}

fn push_fetch(v: &mut Vec<Step>)
    ensures
        steps_view(final(v)@) == steps_view(old(v)@).push(fetch_step()),
{
    v.push(Step::FetchGradleFiles);
    assert(steps_view(v@) =~= steps_view(old(v)@).push(fetch_step()));
}

fn push_layout_dir(v: &mut Vec<Step>, p: &String, i: u32)
    requires
        i <= 15,
    ensures
        steps_view(final(v)@) == steps_view(old(v)@) + layout_dir(p@, i as int),
{
    push_dir(v, p);
    push_progress(v, 50 + 5 * i);
    assert(steps_view(v@) =~= steps_view(old(v)@) + layout_dir(p@, i as int));
}

fn root(pd: &String) -> (v: Vec<Step>)
    ensures
        steps_view(v@) == root_steps(pd@),
{
    let mut v: Vec<Step> = Vec::new();
    push_log(&mut v, "Creating project structure...");
    push_dir(&mut v, pd);
    push_dir(&mut v, &join_path(pd.as_str(), "app"));
    push_log(&mut v, "Created root directories");
    push_progress(&mut v, 50);
    push_log(&mut v, "Creating Android app directories...");
    assert(steps_view(v@) =~= root_steps(pd@));
    v
}

fn layout(pd: &String) -> (v: Vec<Step>)
    ensures
        steps_view(v@) == layout_steps(pd@),
{
    let mut v: Vec<Step> = Vec::new();
    let ad = join_path(pd.as_str(), "app");
    let src = join_path(ad.as_str(), "src");
    let sm = join_path(src.as_str(), "main");
    let st = join_path(src.as_str(), "test");
    let sat = join_path(src.as_str(), "androidTest");
    let kd = join_path(join_path(join_path(join_path(sm.as_str(), "kotlin").as_str(), "com").as_str(), "example").as_str(), "app");
    let rd = join_path(sm.as_str(), "res");
    let jt = join_path(join_path(join_path(join_path(st.as_str(), "java").as_str(), "com").as_str(), "example").as_str(), "app");
    let jat = join_path(join_path(join_path(join_path(sat.as_str(), "java").as_str(), "com").as_str(), "example").as_str(), "app");
    push_layout_dir(&mut v, &sm, 0);
    push_layout_dir(&mut v, &st, 1);
    push_layout_dir(&mut v, &sat, 2);
    push_layout_dir(&mut v, &kd, 3);
    push_layout_dir(&mut v, &rd, 4);
    push_layout_dir(&mut v, &jt, 5);
    push_layout_dir(&mut v, &jat, 6);
    push_layout_dir(&mut v, &join_path(rd.as_str(), "layout"), 7);
    push_layout_dir(&mut v, &join_path(rd.as_str(), "values"), 8);
    push_layout_dir(&mut v, &join_path(rd.as_str(), "values-night"), 9);
    push_layout_dir(&mut v, &join_path(rd.as_str(), "xml"), 10);
    push_layout_dir(&mut v, &join_path(rd.as_str(), "mipmap-mdpi"), 11);
    push_layout_dir(&mut v, &join_path(rd.as_str(), "mipmap-hdpi"), 12);
    push_layout_dir(&mut v, &join_path(rd.as_str(), "mipmap-xhdpi"), 13);
    push_layout_dir(&mut v, &join_path(rd.as_str(), "mipmap-xxhdpi"), 14);
    push_layout_dir(&mut v, &join_path(rd.as_str(), "mipmap-xxxhdpi"), 15);
    assert(steps_view(v@) =~= layout_steps(pd@));
    v
}

fn push_icons(v: &mut Vec<Step>, rd: &String, dir: &str, size: u64)
    ensures
        steps_view(final(v)@) == steps_view(old(v)@) + icon_steps(rd@, dir@, size as nat),
{
    let d = join_path(rd.as_str(), dir);
    let mut icon = String::from_str(ICON_XML_HEAD);
    icon.append(decimal_string(size / 4).as_str());
    icon.append(ICON_XML_TAIL);
    let icon2 = icon.clone();
    push_write(v, join_path(d.as_str(), "ic_launcher.xml"), icon);
    push_write(v, join_path(d.as_str(), "ic_launcher_round.xml"), icon2);
    assert(steps_view(v@) =~= steps_view(old(v)@) + icon_steps(rd@, dir@, size as nat));
}

fn icons(pd: &String) -> (v: Vec<Step>)
    ensures
        steps_view(v@) == all_icon_steps(pd@),
{
    let mut v: Vec<Step> = Vec::new();
    let sm = join_path(join_path(join_path(pd.as_str(), "app").as_str(), "src").as_str(), "main");
    let rd = join_path(sm.as_str(), "res");
    push_icons(&mut v, &rd, "mipmap-mdpi", 48);
    push_icons(&mut v, &rd, "mipmap-hdpi", 72);
    push_icons(&mut v, &rd, "mipmap-xhdpi", 96);
    push_icons(&mut v, &rd, "mipmap-xxhdpi", 144);
    push_icons(&mut v, &rd, "mipmap-xxxhdpi", 192);
    assert(steps_view(v@) =~= all_icon_steps(pd@));
    v
}

fn gradle(pd: &String, gradle_source: &str) -> (v: Vec<Step>)
    ensures
        steps_view(v@) == gradle_steps(pd@, gradle_source@),
{
    let mut v: Vec<Step> = Vec::new();
    let sm = join_path(join_path(join_path(pd.as_str(), "app").as_str(), "src").as_str(), "main");
    let dd = join_path(join_path(sm.as_str(), "res").as_str(), "drawable");
    let gw = join_path(join_path(pd.as_str(), "gradle").as_str(), "wrapper");
    let gsw = join_path(gradle_source, "wrapper");
    push_dir(&mut v, &dd);
    push_write(&mut v, join_path(dd.as_str(), "ic_launcher_foreground.xml"), String::from_str(BASE_ICON_XML));
    push_log(&mut v, "Setting up Gradle build system...");
    push_fetch(&mut v);
    push_dir(&mut v, &gw);
    push_copy(&mut v, join_path(gradle_source, "gradlew"), join_path(pd.as_str(), "gradlew"));
    push_copy(&mut v, join_path(gradle_source, "gradlew.bat"), join_path(pd.as_str(), "gradlew.bat"));
    push_copy(&mut v, join_path(gsw.as_str(), "gradle-wrapper.jar"), join_path(gw.as_str(), "gradle-wrapper.jar"));
    push_copy(&mut v, join_path(gsw.as_str(), "gradle-wrapper.properties"), join_path(gw.as_str(), "gradle-wrapper.properties"));
    push_progress(&mut v, 60);
    assert(steps_view(v@) =~= gradle_steps(pd@, gradle_source@));
    v
}

fn concat3(a: &str, b: &str, c: &str) -> (r: String)
    ensures
        r@ == a@ + b@ + c@,
{
    let mut r = String::from_str(a);
    r.append(b);
    r.append(c);
    r
}

#[verifier::rlimit(30)]
fn files(pd: &String, name: &str, api: &str, sdk: &str) -> (v: Vec<Step>)
    ensures
        steps_view(v@) == file_steps(pd@, name@, api@, sdk@),
{
    let mut v: Vec<Step> = Vec::new();
    let ad = join_path(pd.as_str(), "app");
    let sm = join_path(join_path(ad.as_str(), "src").as_str(), "main");
    let st = join_path(join_path(ad.as_str(), "src").as_str(), "test");
    let sat = join_path(join_path(ad.as_str(), "src").as_str(), "androidTest");
    let kd = join_path(join_path(join_path(join_path(sm.as_str(), "kotlin").as_str(), "com").as_str(), "example").as_str(), "app");
    let rd = join_path(sm.as_str(), "res");
    let values = join_path(rd.as_str(), "values");
    let xml = join_path(rd.as_str(), "xml");
    let jt = join_path(join_path(join_path(join_path(st.as_str(), "java").as_str(), "com").as_str(), "example").as_str(), "app");
    let jat = join_path(join_path(join_path(join_path(sat.as_str(), "java").as_str(), "com").as_str(), "example").as_str(), "app");
    push_log(&mut v, "Creating build configuration files...");
    push_write(&mut v, join_path(pd.as_str(), "build.gradle.kts"), String::from_str(ROOT_BUILD_GRADLE));
    push_write(&mut v, join_path(ad.as_str(), "build.gradle.kts"), concat3(APP_BUILD_GRADLE_HEAD, api, APP_BUILD_GRADLE_TAIL));
    push_write(&mut v, join_path(pd.as_str(), "settings.gradle.kts"), concat3(SETTINGS_GRADLE_HEAD, name, SETTINGS_GRADLE_TAIL));
    let mut local = String::from_str("sdk.dir=");
    local.append(escape_backslashes_str(sdk).as_str());
    push_write(&mut v, join_path(pd.as_str(), "local.properties"), local);
    let mut bg = concat3(BUILD_GRADLE_HEAD, api, BUILD_GRADLE_MID);
    bg.append(api);
    bg.append(BUILD_GRADLE_TAIL);
    push_write(&mut v, join_path(ad.as_str(), "build.gradle.kts"), bg);
    push_progress(&mut v, 80);
    push_write(&mut v, join_path(pd.as_str(), "settings.gradle.kts"), String::from_str(SETTINGS_GRADLE_DEFAULT));
    push_log(&mut v, "Creating Gradle configuration...");
    push_write(&mut v, join_path(pd.as_str(), "gradle.properties"), String::from_str(GRADLE_PROPERTIES));
    push_log(&mut v, "Creating Android source files...");
    push_write(&mut v, join_path(kd.as_str(), "MainActivity.kt"), String::from_str(MAIN_ACTIVITY_KT));
    push_write(&mut v, join_path(kd.as_str(), "Theme.kt"), String::from_str(THEME_KT));
    push_log(&mut v, "Creating Android resource files...");
    push_write(&mut v, join_path(sm.as_str(), "AndroidManifest.xml"), String::from_str(ANDROID_MANIFEST_XML));
    push_write(&mut v, join_path(values.as_str(), "strings.xml"), concat3(STRINGS_XML_HEAD, name, STRINGS_XML_TAIL));
    push_write(&mut v, join_path(values.as_str(), "themes.xml"), String::from_str(THEMES_XML));
    push_write(&mut v, join_path(xml.as_str(), "backup_rules.xml"), String::from_str(BACKUP_RULES_XML));
    push_write(&mut v, join_path(xml.as_str(), "data_extraction_rules.xml"), String::from_str(DATA_EXTRACTION_RULES_XML));
    push_log(&mut v, "Creating test files...");
    push_write(&mut v, join_path(jt.as_str(), "ExampleUnitTest.kt"), String::from_str(EXAMPLE_UNIT_TEST_KT));
    push_write(&mut v, join_path(jat.as_str(), "ExampleInstrumentedTest.kt"), String::from_str(EXAMPLE_INSTRUMENTED_TEST_KT));
    push_write(&mut v, join_path(pd.as_str(), ".gitignore"), String::from_str(GITIGNORE));
    push_log(&mut v, "Finalizing project setup...");
    push_progress(&mut v, 100);
    let mut done = String::from_str("App creation completed. Project created at: ");
    done.append(pd.as_str());
    push_log(&mut v, done.as_str());
    assert(steps_view(v@) =~= file_steps(pd@, name@, api@, sdk@));
    v
}

/// A project to create: its name, the directory to create it in and the
/// Android API level it targets.
pub struct AppCreation {
    pub app_name: String,
    pub app_path: String,
    pub api_level: String,
}

impl AppCreation {
    /// A project with these name, location and API level.
    pub fn new(app_name: String, app_path: String, api_level: String) -> (a: Self)
        ensures
            a.app_name == app_name,
            a.app_path == app_path,
            a.api_level == api_level,
    {
        AppCreation { app_name, app_path, api_level }
    }

    /// The steps that create the project, given where the Gradle files are and
    /// where the SDK is; none when the name or the location is empty.
    pub fn create_app_steps(&self, gradle_source: &str, sdk_path: &str) -> (r: Option<Vec<Step>>)
        ensures
            (self.app_name@.len() == 0 || self.app_path@.len() == 0) <==> r.is_none(),
            r matches Some(v) ==> steps_view(v@) == creation_steps(
                self.app_name@,
                self.app_path@,
                self.api_level@,
                gradle_source@,
                sdk_path@,
            ),
    {
        if self.app_name.as_str().is_empty() || self.app_path.as_str().is_empty() {
            return None;
        }
        let pd = join_path(self.app_path.as_str(), self.app_name.as_str());
        let mut v = root(&pd);
        let mut a = layout(&pd);
        let mut b = icons(&pd);
        let mut c = gradle(&pd, gradle_source);
        let mut d = files(&pd, self.app_name.as_str(), self.api_level.as_str(), sdk_path);
        let ghost (v0, va, vb, vc, vd) = (steps_view(v@), steps_view(a@), steps_view(b@), steps_view(c@), steps_view(d@));
        v.append(&mut a);
        v.append(&mut b);
        v.append(&mut c);
        v.append(&mut d);
        assert(steps_view(v@) =~= v0 + va + vb + vc + vd);
        Some(v)
    }
}

} // verus!
