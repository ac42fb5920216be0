//! Plugins: what a plugin offers, and the plugin that carries a name and a
//! version.
use vstd::prelude::*;
use vstd::string::StringExecFns;

verus! {

/// A plugin. Its users implement it; the hooks do nothing unless overridden.
pub trait Plugin {
    /// The plugin's name.
    fn name(&self) -> &str;

    /// The plugin's version.
    fn version(&self) -> &str;

    /// The line reported when the plugin is activated.
    fn activate(&self) -> String;

    /// The line reported when the plugin is deactivated.
    fn deactivate(&self) -> String;

    fn on_file_operation(&self) {
    }

    fn on_editor_update(&self, buffer: &str) {
    }

    fn on_console_update(&self) {
    }

    fn on_git_operation(&self) {
    }

    fn on_build(&self) {
    }

    fn on_debug(&self) {
    }

    fn on_emulator_start(&self) {
    }

    fn on_settings_change(&self) {
    }
}

/// A plugin made of a name and a version.
pub struct PluginWrapper {
    pub name: String,
    pub version: String,
    pub activated: bool,
}

impl PluginWrapper {
    /// A plugin with this name and version, not activated.
    pub fn new(name: &str, version: &str) -> (p: Self)
        ensures
            p.name@ == name@,
            p.version@ == version@,
            !p.activated,
    {
        PluginWrapper { name: String::from_str(name), version: String::from_str(version), activated: false }
    }

    /// A copy of the plugin.
    pub fn clone_box(&self) -> (p: Self)
        ensures
            p.name@ == self.name@,
            p.version@ == self.version@,
            p.activated == self.activated,
    {
        PluginWrapper { name: self.name.clone(), version: self.version.clone(), activated: self.activated }
    }
}

impl Plugin for PluginWrapper {
    fn name(&self) -> (r: &str)
        ensures
            r@ == self.name@,
    {
        self.name.as_str()
    }

    fn version(&self) -> (r: &str)
        ensures
            r@ == self.version@,
    {
        self.version.as_str()
    }

    fn activate(&self) -> (r: String)
        ensures
            r@ == "Activating plugin: "@ + self.name@,
    {
        let mut r = String::from_str("Activating plugin: ");
        r.append(self.name.as_str());
        r
    }

    fn deactivate(&self) -> (r: String)
        ensures
            r@ == "Deactivating plugin: "@ + self.name@,
    {
        let mut r = String::from_str("Deactivating plugin: ");
        r.append(self.name.as_str());
        r
    }
}

} // verus!
