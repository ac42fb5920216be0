//! The file browser: which folders are open, what is selected, renamed or
//! being created, and how the editor's buffers follow the disk.
use vstd::prelude::*;
use vstd::string::StringExecFns;
use crate::path_set::PathSet;
use crate::paths::{
    path_key,
    path_join, path_parent, path_file_name, path_with_file_name, join_path, parent_of, file_name_of,
    with_file_name,
};
use crate::file_system::FileSystem;
use crate::code_editor::{Buffer, CodeEditor, CursorPosition, opt_str, clone_opt_string};
use crate::text::str_eq;

verus! {

/// The entry that a context menu was opened on.
pub struct ContextMenuTarget {
    pub path: String,
    pub is_dir: bool,
}

/// How an attempt to open a folder ended.
#[derive(Debug, Clone, Copy, PartialEq, Eq, Structural)]
pub enum OpenFolderOutcome {
    /// Another opening is under way.
    Busy,
    /// No folder was picked.
    Cancelled,
    /// The picked folder is the open project.
    AlreadyOpen,
    /// The picked folder is now the project.
    Opened,
}

/// What saving the active buffer amounts to.
pub enum SaveTarget {
    /// No buffer is active.
    NoBuffer,
    /// The active buffer has no file.
    Unnamed,
    /// Write this text to this file.
    File(String, String),
}

/// The name that a new item starts with.
pub open spec fn new_item_name(is_folder: bool) -> Seq<char> {
    if is_folder {
        "New Folder"@
    } else {
        "New File.txt"@
    }
}

/// The file browser's state.
pub struct FileModal {
    pub show: bool,
    pub file_system: Option<FileSystem>,
    pub project_path: Option<String>,
    pub expanded_folders: PathSet,
    pub selected_folder: Option<String>,
    pub selected_item: Option<String>,
    pub editing_item: Option<(String, String)>,
    pub creating_item: Option<(String, String, bool)>,
    pub context_menu: Option<ContextMenuTarget>,
    pub new_item_focus: bool,
    pub is_initializing: bool,
}

impl FileModal {
    /// A hidden browser with no project.
    pub fn new() -> (m: Self)
        ensures
            !m.show,
            m.file_system.is_none(),
            m.project_path.is_none(),
            m.expanded_folders@ == Set::<Seq<char>>::empty(),
            m.selected_folder.is_none(),
            m.selected_item.is_none(),
            m.editing_item.is_none(),
            m.creating_item.is_none(),
            m.context_menu.is_none(),
            !m.new_item_focus,
            !m.is_initializing,
    {
        FileModal {
            show: false,
            file_system: None,
            project_path: None,
            expanded_folders: PathSet::new(),
            selected_folder: None,
            selected_item: None,
            editing_item: None,
            creating_item: None,
            context_menu: None,
            new_item_focus: false,
            is_initializing: false,
        }
    }

    /// Where a new item goes: the selected folder, else the project.
    pub fn creation_parent(&self) -> (r: Option<String>)
        ensures
            opt_str(r) == if self.selected_folder.is_some() {
                opt_str(self.selected_folder)
            } else {
                opt_str(self.project_path)
            },
    {
        if self.selected_folder.is_some() {
            clone_opt_string(&self.selected_folder)
        } else {
            clone_opt_string(&self.project_path)
        }
    }

    /// A click on an entry: it becomes the selected item; a folder opens or
    /// closes and becomes the selected folder; for a file its folder becomes
    /// the selected folder, and the result says that the file is to be opened.
    pub fn click_entry(&mut self, path: &str, is_dir: bool) -> (open: bool)
        ensures
            open == !is_dir,
            opt_str(final(self).selected_item) == Some(path@),
            is_dir ==> final(self).expanded_folders@ == if old(self).expanded_folders@.contains(path_key(path@)) {
                old(self).expanded_folders@.remove(path_key(path@))
            } else {
                old(self).expanded_folders@.insert(path_key(path@))
            },
            is_dir ==> opt_str(final(self).selected_folder) == Some(path@),
            !is_dir ==> final(self).expanded_folders@ == old(self).expanded_folders@,
            !is_dir ==> opt_str(final(self).selected_folder) == match path_parent(path@) {
                Some(p) => Some(p),
                None => opt_str(old(self).selected_folder),
            },
            opt_str(final(self).project_path) == opt_str(old(self).project_path),
            final(self).creating_item == old(self).creating_item,
            final(self).editing_item == old(self).editing_item,
    {
        self.selected_item = Some(String::from_str(path));
        if is_dir {
            if self.expanded_folders.contains(path) {
                self.expanded_folders.remove(path);
            } else {
                self.expanded_folders.insert(path);
            }
            self.selected_folder = Some(String::from_str(path));
            false
        } else {
            match parent_of(path) {
                Some(p) => {
                    self.selected_folder = Some(p);
                },
                None => {},
            }
            true
        }
    }

    /// Whether the tree shows the contents of this entry: a folder that is
    /// open or that an item is being created in.
    pub fn descends_into(&self, path: &str, is_dir: bool) -> (b: bool)
        ensures
            b == (is_dir && (self.expanded_folders@.contains(path_key(path@)) || (self.creating_item matches Some(
                c,
            ) && c.0@ == path@))),
    {
        if !is_dir {
            return false;
        }
        if self.expanded_folders.contains(path) {
            return true;
        }
        match &self.creating_item {
            Some(c) => str_eq(c.0.as_str(), path),
            None => false,
        }
    }

    /// The text shown for an entry: a file's name is indented by one space.
    pub fn entry_label(name: &str, is_dir: bool) -> (r: String)
        ensures
            r@ == if is_dir {
                name@
            } else {
                " "@ + name@
            },
    {
        if is_dir {
            String::from_str(name)
        } else {
            let mut r = String::from_str(" ");
            r.append(name);
            r
        }
    }

    /// Starts renaming `path`, offering its current name, when it has one.
    pub fn start_rename(&mut self, path: &str)
        ensures
            match path_file_name(path@) {
                Some(n) => final(self).editing_item matches Some(e) && e.0@ == path@ && e.1@ == n
                    && final(self).new_item_focus,
                None => final(self).editing_item == old(self).editing_item
                    && final(self).new_item_focus == old(self).new_item_focus,
            },
            final(self).creating_item == old(self).creating_item,
            final(self).expanded_folders@ == old(self).expanded_folders@,
    {
        match file_name_of(path) {
            Some(name) => {
                self.editing_item = Some((String::from_str(path), name));
                self.new_item_focus = true;
            },
            None => {},
        }
    }

    /// Ends a rename: returns the old path and the new one (the old path with
    /// its last component replaced by the typed name) for the caller to
    /// rename on disk.
    pub fn finish_rename(&mut self) -> (r: Option<(String, String)>)
        ensures
            final(self).editing_item.is_none(),
            match old(self).editing_item {
                Some(e) => r matches Some(pair) && pair.0@ == e.0@ && pair.1@ == path_with_file_name(
                    e.0@,
                    e.1@,
                ),
                None => r.is_none(),
            },
            final(self).expanded_folders@ == old(self).expanded_folders@,
    {
        match self.editing_item.take() {
            Some((old_path, new_name)) => {
                let new_path = with_file_name(old_path.as_str(), new_name.as_str());
                Some((old_path, new_path))
            },
            None => None,
        }
    }

    /// Abandons a rename.
    pub fn cancel_rename(&mut self)
        ensures
            final(self).editing_item.is_none(),
            final(self).expanded_folders@ == old(self).expanded_folders@,
            final(self).creating_item == old(self).creating_item,
    {
        self.editing_item = None;
    }

    /// Starts creating a file or folder in `parent`, which opens.
    pub fn start_create_item(&mut self, is_folder: bool, parent: &str)
        ensures
            final(self).creating_item matches Some(c) && c.0@ == parent@ && c.1@ == new_item_name(
                is_folder,
            ) && c.2 == is_folder,
            final(self).expanded_folders@ == old(self).expanded_folders@.insert(path_key(parent@)),
            final(self).new_item_focus,
            final(self).editing_item == old(self).editing_item,
    {
        let name = if is_folder {
            String::from_str("New Folder")
        } else {
            String::from_str("New File.txt")
        };
        self.creating_item = Some((String::from_str(parent), name, is_folder));
        self.expanded_folders.insert(parent);
        self.new_item_focus = true;
    }

    /// Takes the item being created, once its name is entered.
    pub fn take_creating_item(&mut self) -> (r: Option<(String, String, bool)>)
        ensures
            r == old(self).creating_item,
            final(self).creating_item.is_none(),
            final(self).expanded_folders@ == old(self).expanded_folders@,
    {
        self.creating_item.take()
    }

    /// After creating `name` in `parent`: `parent` stays open. Returns the new
    /// item's path, or nothing when no project is open.
    pub fn finish_create_item(&mut self, parent: &str, name: &str) -> (r: Option<String>)
        ensures
            old(self).file_system.is_some() ==> (r matches Some(p) && p@ == path_join(parent@, name@)
                && final(self).expanded_folders@ == old(self).expanded_folders@.insert(path_key(parent@))),
            old(self).file_system.is_none() ==> r.is_none() && final(self).expanded_folders@
                == old(self).expanded_folders@,
    {
        if self.file_system.is_some() {
            let p = join_path(parent, name);
            self.expanded_folders.insert(parent);
            Some(p)
        } else {
            None
        }
    }

    /// After deleting `path`: nothing is selected, and a deleted folder closes.
    pub fn item_deleted(&mut self, path: &str, was_dir: bool)
        ensures
            final(self).selected_item.is_none(),
            final(self).expanded_folders@ == if was_dir {
                old(self).expanded_folders@.remove(path_key(path@))
            } else {
                old(self).expanded_folders@
            },
    {
        self.selected_item = None;
        if was_dir {
            self.expanded_folders.remove(path);
        }
    }

    /// Opens the context menu on an entry.
    pub fn open_context_menu(&mut self, path: String, is_dir: bool)
        ensures
            final(self).context_menu matches Some(t) && t.path == path && t.is_dir == is_dir,
    {
        self.context_menu = Some(ContextMenuTarget { path, is_dir });
    }

    /// Closes the context menu.
    pub fn close_context_menu(&mut self)
        ensures
            final(self).context_menu.is_none(),
    {
        self.context_menu = None;
    }

    /// Closes every folder.
    pub fn collapse_all_folders(&mut self)
        ensures
            final(self).expanded_folders@ == Set::<Seq<char>>::empty(),
    {
        self.expanded_folders.clear();
    }

    /// Starts over on the open project with a fresh file system whose only
    /// open folder is the project.
    pub fn reload_file_system(&mut self)
        ensures
            match old(self).project_path {
                Some(p) => final(self).file_system matches Some(fs) && fs.wf()
                    && fs.project_directory@ == p@ && final(self).expanded_folders@ == set![path_key(p@)],
                None => final(self).expanded_folders@ == old(self).expanded_folders@
                    && final(self).file_system == old(self).file_system,
            },
            opt_str(final(self).project_path) == opt_str(old(self).project_path),
    {
        match &self.project_path {
            Some(p) => {
                let fs = FileSystem::new(p.as_str());
                let q = p.clone();
                self.file_system = Some(fs);
                self.expanded_folders.clear();
                self.expanded_folders.insert(q.as_str());
                assert(Set::<Seq<char>>::empty().insert(q@) =~= set![q@]);
            },
            None => {},
        }
    }

    /// Starts opening a folder unless an opening is under way; says whether it
    /// started.
    pub fn begin_open_folder(&mut self) -> (started: bool)
        ensures
            started == !old(self).is_initializing,
            final(self).is_initializing,
    {
        if self.is_initializing {
            false
        } else {
            self.is_initializing = true;
            true
        }
    }

    /// Ends opening a folder with the folder picked, if any. A new project
    /// starts with nothing selected, renamed, created or in a menu, and only
    /// its own folder open.
    pub fn finish_open_folder(&mut self, picked: Option<String>) -> (outcome: OpenFolderOutcome)
        ensures
            !final(self).is_initializing,
            match picked {
                None => outcome == OpenFolderOutcome::Cancelled && opt_str(final(self).project_path)
                    == opt_str(old(self).project_path) && final(self).expanded_folders@
                    == old(self).expanded_folders@,
                Some(f) => if opt_str(old(self).project_path) == Some(f@) {
                    outcome == OpenFolderOutcome::AlreadyOpen && opt_str(final(self).project_path)
                        == opt_str(old(self).project_path) && final(self).expanded_folders@
                        == old(self).expanded_folders@
                } else {
                    &&& outcome == OpenFolderOutcome::Opened
                    &&& opt_str(final(self).project_path) == Some(f@)
                    &&& final(self).file_system matches Some(fs) && fs.wf() && fs.project_directory@ == f@
                    &&& final(self).expanded_folders@ == set![path_key(f@)]
                    &&& final(self).selected_folder.is_none()
                    &&& final(self).selected_item.is_none()
                    &&& final(self).editing_item.is_none()
                    &&& final(self).creating_item.is_none()
                    &&& final(self).context_menu.is_none()
                },
            },
    {
        self.is_initializing = false;
        match picked {
            None => OpenFolderOutcome::Cancelled,
            Some(f) => {
                let same = match &self.project_path {
                    Some(p) => str_eq(p.as_str(), f.as_str()),
                    None => false,
                };
                if same {
                    return OpenFolderOutcome::AlreadyOpen;
                }
                self.expanded_folders.clear();
                self.selected_folder = None;
                self.selected_item = None;
                self.editing_item = None;
                self.creating_item = None;
                self.context_menu = None;
                self.file_system = Some(FileSystem::new(f.as_str()));
                self.expanded_folders.insert(f.as_str());
                assert(Set::<Seq<char>>::empty().insert(f@) =~= set![f@]);
                self.project_path = Some(f);
                OpenFolderOutcome::Opened
            },
        }
    }
}

/// What saving the editor's active buffer amounts to.
pub fn save_target(editor: &CodeEditor) -> (t: SaveTarget)
    ensures
        match editor.active_buffer_index {
            Some(i) if i < editor.buffers@.len() => match editor.buffers@[i as int].file_path {
                Some(p) => t matches SaveTarget::File(q, c) && q@ == p@ && c@
                    == editor.buffers@[i as int].content@,
                None => t is Unnamed,
            },
            _ => t is NoBuffer,
        },
{
    match editor.get_active_buffer() {
        Some(b) => match &b.file_path {
            Some(p) => SaveTarget::File(p.clone(), b.content.clone()),
            None => SaveTarget::Unnamed,
        },
        None => SaveTarget::NoBuffer,
    }
}

/// After a successful save: the active buffer is no longer modified.
pub fn mark_active_saved(editor: &mut CodeEditor)
    ensures
        final(editor).active_buffer_index == old(editor).active_buffer_index,
        match old(editor).active_buffer_index {
            Some(i) if i < old(editor).buffers@.len() => final(editor).buffers@ == old(editor).buffers@.update(
                i as int,
                Buffer { is_modified: false, ..old(editor).buffers@[i as int] },
            ),
            _ => final(editor).buffers@ == old(editor).buffers@,
        },
{
    match editor.get_active_buffer_mut() {
        Some(b) => {
            b.is_modified = false;
        },
        None => {},
    }
}

/// The buffers after reloading each one that has a file: `reads[k]` is what
/// reading buffer `k`'s file gave. A buffer whose file read fails is dropped;
/// one that read takes the text and is no longer modified; one without a file
/// stays as it is.
pub open spec fn reloaded(bs: Seq<Buffer>, reads: Seq<Option<String>>) -> Seq<Buffer>
    decreases bs.len(),
{
    if bs.len() == 0 || reads.len() == 0 {
        Seq::empty()
    } else {
        reloaded(bs.drop_last(), reads.drop_last()) + match bs.last().file_path {
            Some(_) => match reads.last() {
                Some(c) => seq![Buffer { content: c, is_modified: false, ..bs.last() }],
                None => Seq::empty(),
            },
            None => seq![bs.last()],
        }
    }
}

fn copy_buffer(b: &Buffer) -> (r: Buffer)
    ensures
        r == *b,
{
    let file_path = match &b.file_path {
        Some(p) => Some(p.clone()),
        None => None,
    };
    Buffer {
        content: b.content.clone(),
        file_path,
        syntax: b.syntax.clone(),
        is_modified: b.is_modified,
        cursor_position: b.cursor_position,
    }
}

/// Reloads the editor's buffers from what reading their files gave (see
/// `reloaded`); the active index is left as it was.
pub fn reload_all_buffers(editor: &mut CodeEditor, reads: Vec<Option<String>>)
    requires
        reads@.len() == old(editor).buffers@.len(),
    ensures
        final(editor).buffers@ == reloaded(old(editor).buffers@, reads@),
        final(editor).active_buffer_index == old(editor).active_buffer_index,
{
    let mut bufs: Vec<Buffer> = Vec::new();
    std::mem::swap(&mut bufs, &mut editor.buffers);
    let ghost orig = bufs@;
    let n = bufs.len();
    let mut i: usize = 0;
    while i < n
        invariant
            n == bufs@.len() == reads@.len(),
            bufs@ == orig,
            i <= n,
            editor.buffers@ == reloaded(orig.take(i as int), reads@.take(i as int)),
            editor.active_buffer_index == old(editor).active_buffer_index,
        decreases n - i,
    {
        assert(orig.take(i + 1).drop_last() =~= orig.take(i as int));
        assert(reads@.take(i + 1).drop_last() =~= reads@.take(i as int));
        let b = &bufs[i];
        match &b.file_path {
            Some(_) => match &reads[i] {
                Some(c) => {
                    let mut nb = copy_buffer(b);
                    nb.content = c.clone();
                    nb.is_modified = false;
                    editor.buffers.push(nb);
                },
                None => {},
            },
            None => {
                editor.buffers.push(copy_buffer(b));
            },
        }
        i = i + 1;
        assert(editor.buffers@ =~= reloaded(orig.take(i as int), reads@.take(i as int)));
    }
    assert(orig.take(n as int) =~= orig);
    assert(reads@.take(n as int) =~= reads@);
}

} // verus!
