//! The side file panel: its project, its open folders, and its rename and
//! create dialog.
use vstd::prelude::*;
use vstd::string::StringExecFns;
use crate::path_set::PathSet;
use crate::paths::{
    path_key,
    path_join, path_parent, path_file_name, path_with_file_name, extension_of, join_path, parent_of,
    file_name_of, with_file_name, file_extension,
};
use crate::file_system::FileSystem;
use crate::code_editor::{opt_str, clone_opt_string};
use crate::text::{decimal, decimal_string, str_eq};

verus! {

/// A confirmed rename: the entry's path, its new path and its new name.
pub struct RenameAction {
    pub old_path: String,
    pub new_path: String,
    pub new_name: String,
}

/// What saving the panel's file amounts to.
pub enum SaveDecision {
    /// No file is open.
    NoFile,
    /// No project is open.
    NoFileSystem,
    /// Write the text to this file.
    Save(String),
}

/// The decimal representation of a signed number.
pub open spec fn signed_decimal(n: int) -> Seq<char> {
    if n < 0 {
        "-"@ + decimal((-n) as nat)
    } else {
        decimal(n as nat)
    }
}

/// The decimal representation of `n`.
pub fn signed_decimal_string(n: i64) -> (s: String)
    ensures
        s@ == signed_decimal(n as int),
{
    if n < 0 {
        let m: u64 = (0i128 - n as i128) as u64;
        let mut s = String::from_str("-");
        s.append(decimal_string(m).as_str());
        s
    } else {
        decimal_string(n as u64)
    }
}

/// The name a new item gets at `timestamp` (seconds since the epoch).
pub open spec fn default_item_name(is_folder: bool, timestamp: int) -> Seq<char> {
    if is_folder {
        "new_folder_"@ + signed_decimal(timestamp)
    } else {
        "new_file_"@ + signed_decimal(timestamp) + ".txt"@
    }
}

/// The path a confirmed name leads to is a folder when its last component
/// has no extension.
pub open spec fn names_folder(path: Seq<char>) -> bool {
    match path_file_name(path) {
        Some(n) => extension_of(n).is_none(),
        None => true,
    }
}

/// The current time in seconds since the epoch (chrono's `Utc::now().timestamp()`);
/// what it returns depends on the clock and is not stated.
#[verifier::external_body]
fn utc_timestamp() -> (t: i64) {
    chrono::Utc::now().timestamp()
}

/// What starting a new item named after `t` makes of `o`, and whether it
/// started: with a project open, the dialog opens on the new name in the
/// selected folder (else in the project); nothing else changes.
pub open spec fn item_started(o: FilePanel, is_folder: bool, t: int, n: FilePanel, done: bool) -> bool {
    &&& done == o.file_system.is_some()
    &&& !done ==> n == o
    &&& done ==> {
        let parent = match o.selected_folder {
            Some(f) => f@,
            None => o.file_system.unwrap().project_directory@,
        };
        let name = default_item_name(is_folder, t);
        &&& n.rename_dialog matches Some(d) && d.0@ == path_join(parent, name) && d.1@ == name
        &&& n == (FilePanel { rename_dialog: n.rename_dialog, ..o })
    }
}

/// The panel's state.
pub struct FilePanel {
    pub file_system: Option<FileSystem>,
    pub project_path: Option<String>,
    pub expanded_folders: PathSet,
    pub rename_dialog: Option<(String, String)>,
    pub selected_folder: Option<String>,
}

impl FilePanel {
    /// A panel with no project.
    pub fn new() -> (p: Self)
        ensures
            p.file_system.is_none(),
            p.project_path.is_none(),
            p.expanded_folders@ == Set::<Seq<char>>::empty(),
            p.rename_dialog.is_none(),
            p.selected_folder.is_none(),
    {
        FilePanel {
            file_system: None,
            project_path: None,
            expanded_folders: PathSet::new(),
            rename_dialog: None,
            selected_folder: None,
        }
    }

    /// Opens the project at `path`, with only its own folder open.
    pub fn open_project(&mut self, path: String)
        ensures
            opt_str(final(self).project_path) == Some(path@),
            final(self).file_system matches Some(fs) && fs.wf() && fs.project_directory@ == path@,
            final(self).expanded_folders@ == set![path_key(path@)],
            final(self).rename_dialog == old(self).rename_dialog,
            final(self).selected_folder == old(self).selected_folder,
    {
        self.file_system = Some(FileSystem::new(path.as_str()));
        self.expanded_folders.clear();
        self.expanded_folders.insert(path.as_str());
        assert(Set::<Seq<char>>::empty().insert(path@) =~= set![path@]);
        self.project_path = Some(path);
    }

    /// The text shown for an entry, with a folder or a file sign.
    pub fn entry_label(name: &str, is_dir: bool) -> (r: String)
        ensures
            r@ == if is_dir {
                "\u{1F4C1} "@ + name@
            } else {
                "\u{1F4C4} "@ + name@
            },
    {
        let mut r = if is_dir {
            String::from_str("\u{1F4C1} ")
        } else {
            String::from_str("\u{1F4C4} ")
        };
        r.append(name);
        r
    }

    /// A click on an entry: a folder opens or closes and becomes the selected
    /// folder; for a file the result says that it is to be opened.
    pub fn click_entry(&mut self, path: &str, is_dir: bool) -> (open: bool)
        ensures
            open == !is_dir,
            is_dir ==> final(self).expanded_folders@ == if old(self).expanded_folders@.contains(path_key(path@)) {
                old(self).expanded_folders@.remove(path_key(path@))
            } else {
                old(self).expanded_folders@.insert(path_key(path@))
            },
            is_dir ==> opt_str(final(self).selected_folder) == Some(path@),
            !is_dir ==> final(self).expanded_folders@ == old(self).expanded_folders@
                && final(self).selected_folder == old(self).selected_folder,
            final(self).rename_dialog == old(self).rename_dialog,
    {
        if is_dir {
            if self.expanded_folders.contains(path) {
                self.expanded_folders.remove(path);
            } else {
                self.expanded_folders.insert(path);
            }
            self.selected_folder = Some(String::from_str(path));
            false
        } else {
            true
        }
    }

    /// Opens the rename dialog on an entry, offering its name.
    pub fn request_rename(&mut self, path: String, name: String)
        ensures
            final(self).rename_dialog == Some((path, name)),
            final(self).expanded_folders@ == old(self).expanded_folders@,
    {
        self.rename_dialog = Some((path, name));
    }

    /// Closes the rename dialog.
    pub fn cancel_rename_dialog(&mut self)
        ensures
            final(self).rename_dialog.is_none(),
            final(self).expanded_folders@ == old(self).expanded_folders@,
    {
        self.rename_dialog = None;
    }

    /// The rename that confirming the dialog asks for: the entry's path with
    /// its last component replaced by the typed name.
    pub fn confirm_rename(&self) -> (r: Option<RenameAction>)
        ensures
            match self.rename_dialog {
                Some(d) => r matches Some(a) && a.old_path@ == d.0@ && a.new_path@
                    == path_with_file_name(d.0@, d.1@) && a.new_name@ == d.1@,
                None => r.is_none(),
            },
    {
        match &self.rename_dialog {
            Some((path, name)) => Some(
                RenameAction {
                    old_path: path.clone(),
                    new_path: with_file_name(path.as_str(), name.as_str()),
                    new_name: name.clone(),
                },
            ),
            None => None,
        }
    }

    /// Whether a confirmed path that does not exist yet is created as a folder
    /// (its last component has no extension) rather than as a file.
    pub fn creates_folder(new_path: &str) -> (b: bool)
        ensures
            b == names_folder(new_path@),
    {
        match file_name_of(new_path) {
            Some(n) => file_extension(n.as_str()).is_none(),
            None => true,
        }
    }

    /// After renaming `old_path` to `new_path`: the open file follows it.
    pub fn follow_rename(current_file: &mut Option<String>, old_path: &str, new_path: &str)
        ensures
            opt_str(*final(current_file)) == if opt_str(*old(current_file)) == Some(old_path@) {
                Some(new_path@)
            } else {
                opt_str(*old(current_file))
            },
    {
        let same = match current_file {
            Some(f) => str_eq(f.as_str(), old_path),
            None => false,
        };
        if same {
            *current_file = Some(String::from_str(new_path));
        }
    }

    /// Closes the dialog once its rename or creation was attempted; the new
    /// path's folder opens.
    pub fn finish_rename_dialog(&mut self, new_path: &str)
        ensures
            final(self).rename_dialog.is_none(),
            final(self).expanded_folders@ == match path_parent(new_path@) {
                Some(p) => old(self).expanded_folders@.insert(path_key(p)),
                None => old(self).expanded_folders@,
            },
    {
        match parent_of(new_path) {
            Some(p) => self.expanded_folders.insert(p.as_str()),
            None => {},
        }
        self.rename_dialog = None;
    }

    /// Opens the dialog on a new item named after `timestamp` in the selected
    /// folder, else in the project; says whether a project is open.
    pub fn create_new_item_at(&mut self, is_folder: bool, timestamp: i64) -> (done: bool)
        ensures
            item_started(*old(self), is_folder, timestamp as int, *final(self), done),
    {
        let parent = match &self.file_system {
            Some(fs) => match &self.selected_folder {
                Some(f) => f.clone(),
                None => fs.project_directory.clone(),
            },
            None => {
                return false;
            },
        };
        let name = if is_folder {
            let mut n = String::from_str("new_folder_");
            n.append(signed_decimal_string(timestamp).as_str());
            n
        } else {
            let mut n = String::from_str("new_file_");
            n.append(signed_decimal_string(timestamp).as_str());
            n.append(".txt");
            n
        };
        let path = join_path(parent.as_str(), name.as_str());
        self.rename_dialog = Some((path, name));
        true
    }

    /// `create_new_item_at` at the current time.
    pub fn create_new_item(&mut self, is_folder: bool) -> (done: bool)
        ensures
            exists|t: i64| item_started(*old(self), is_folder, t as int, *final(self), done),
    {
        let t = utc_timestamp();
        let done = self.create_new_item_at(is_folder, t);
        assert(item_started(*old(self), is_folder, t as int, *self, done));
        done
    }

    /// After deleting `path`: an open file that was deleted closes and its text
    /// is cleared; a deleted folder closes.
    pub fn deleted(&mut self, path: &str, is_dir: bool, current_file: &mut Option<String>, code: &mut String)
        ensures
            final(self).expanded_folders@ == old(self).expanded_folders@.remove(path_key(path@)),
            !is_dir && opt_str(*old(current_file)) == Some(path@) ==> final(current_file).is_none()
                && final(code)@ == Seq::<char>::empty(),
            !(!is_dir && opt_str(*old(current_file)) == Some(path@)) ==> *final(current_file)
                == *old(current_file) && *final(code) == *old(code),
    {
        let hit = match current_file {
            Some(f) => str_eq(f.as_str(), path),
            None => false,
        };
        if !is_dir && hit {
            *current_file = None;
            *code = String::new();
        }
        self.expanded_folders.remove(path);
    }

    /// What saving the open file amounts to.
    pub fn save_current_file(&self, current_file: &Option<String>) -> (d: SaveDecision)
        ensures
            match current_file {
                None => d is NoFile,
                Some(f) => if self.file_system.is_some() {
                    d matches SaveDecision::Save(p) && p@ == f@
                } else {
                    d is NoFileSystem
                },
            },
    {
        match current_file {
            None => SaveDecision::NoFile,
            Some(f) => if self.file_system.is_some() {
                SaveDecision::Save(f.clone())
            } else {
                SaveDecision::NoFileSystem
            },
        }
    }

    /// The console line for saving the open file: `decision` is what
    /// `save_current_file` gave and `outcome` what writing the file gave, when
    /// it was written. No file open, a save and a failed save are reported;
    /// with no project nothing is.
    pub fn save_report(decision: &SaveDecision, outcome: Option<Result<(), String>>) -> (r: Option<String>)
        ensures
            match decision {
                SaveDecision::NoFile => r matches Some(m) && m@ == "No file is currently open."@,
                SaveDecision::NoFileSystem => r.is_none(),
                SaveDecision::Save(f) => match outcome {
                    Some(Ok(())) => r matches Some(m) && m@ == "Saved file: "@ + f@,
                    Some(Err(e)) => r matches Some(m) && m@ == "Error saving file "@ + f@ + ": "@ + e@,
                    None => r.is_none(),
                },
            },
    {
        match decision {
            SaveDecision::NoFile => Some(String::from_str("No file is currently open.")),
            SaveDecision::NoFileSystem => None,
            SaveDecision::Save(f) => match outcome {
                Some(Ok(())) => {
                    let mut m = String::from_str("Saved file: ");
                    m.append(f.as_str());
                    Some(m)
                },
                Some(Err(e)) => {
                    let mut m = String::from_str("Error saving file ");
                    m.append(f.as_str());
                    m.append(": ");
                    m.append(e.as_str());
                    Some(m)
                },
                None => None,
            },
        }
    }
}

} // verus!
