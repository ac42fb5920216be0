//! The IDE's window-level decisions: keyboard shortcuts, which panels show,
//! colours of the title bar, and passing settings on to the assistant.
use vstd::prelude::*;
use vstd::string::StringExecFns;
use crate::search::SearchResult;
use crate::settings_modal::SettingsModal;
use crate::ai_assistant::AIAssistant;

verus! {

/// The keys pressed in a frame, with the modifiers held.
pub struct ShortcutKeys {
    pub ctrl: bool,
    pub shift: bool,
    pub num1: bool,
    pub num2: bool,
    pub num3: bool,
    pub num4: bool,
    pub m: bool,
    pub o: bool,
    pub s: bool,
    pub p: bool,
    pub f: bool,
    pub g: bool,
    pub escape: bool,
}

/// Which panels and dialogs show, and the search dialog's state.
pub struct IdeView {
    pub show_file_modal: bool,
    pub show_emulator_panel: bool,
    pub show_ai_panel: bool,
    pub show_console_panel: bool,
    pub show_settings: bool,
    pub show_git_modal: bool,
    pub show_file_search_modal: bool,
    pub show_current_file_search_modal: bool,
    pub show_project_search_modal: bool,
    pub search_focus_requested: bool,
    pub search_query: String,
    pub search_results: Vec<SearchResult>,
}

/// What the shortcuts ask of the rest of the IDE.
pub struct ShortcutRequests {
    pub open_folder: bool,
    pub save: bool,
    pub refresh_git: bool,
}

/// A flag flipped when `hit`.
pub open spec fn toggled(b: bool, hit: bool) -> bool {
    if hit {
        !b
    } else {
        b
    }
}

/// Whether the current-file search opens this frame.
pub open spec fn opens_file_search(v: IdeView, k: ShortcutKeys, has_active_buffer: bool) -> bool {
    k.f && k.ctrl && !k.shift && !v.show_current_file_search_modal && has_active_buffer
}

/// Whether the project search opens this frame.
pub open spec fn opens_project_search(v: IdeView, k: ShortcutKeys) -> bool {
    k.f && k.ctrl && k.shift && !v.show_project_search_modal
}

/// Applies a frame's shortcuts: Ctrl+1..4 toggle the file browser, the
/// emulator, the assistant and the console; Ctrl+M the settings; Ctrl+O
/// opens a folder; Ctrl+S saves; Ctrl+P opens the file search; Ctrl+F and
/// Ctrl+Shift+F toggle the current-file and project searches (opening one
/// empties the query and the results); Ctrl+G toggles the Git dialog, which
/// refreshes when it opens; Escape closes the searches.
pub fn handle_keyboard_shortcuts(view: &mut IdeView, keys: &ShortcutKeys, has_active_buffer: bool) -> (r: ShortcutRequests)
    ensures
        final(view).show_file_modal == toggled(old(view).show_file_modal, keys.num1 && keys.ctrl),
        final(view).show_emulator_panel == toggled(old(view).show_emulator_panel, keys.num2 && keys.ctrl),
        final(view).show_ai_panel == toggled(old(view).show_ai_panel, keys.num3 && keys.ctrl),
        final(view).show_console_panel == toggled(old(view).show_console_panel, keys.num4 && keys.ctrl),
        final(view).show_settings == toggled(old(view).show_settings, keys.m && keys.ctrl),
        r.open_folder == (keys.o && keys.ctrl),
        r.save == (keys.s && keys.ctrl),
        final(view).show_file_search_modal == (old(view).show_file_search_modal || (keys.p && keys.ctrl)),
        final(view).show_git_modal == toggled(old(view).show_git_modal, keys.g && keys.ctrl),
        r.refresh_git == (keys.g && keys.ctrl && final(view).show_git_modal),
        final(view).show_current_file_search_modal == (!keys.escape && if keys.f && keys.ctrl && !keys.shift {
            if old(view).show_current_file_search_modal {
                false
            } else {
                has_active_buffer
            }
        } else {
            old(view).show_current_file_search_modal
        }),
        final(view).show_project_search_modal == (!keys.escape && toggled(
            old(view).show_project_search_modal,
            keys.f && keys.ctrl && keys.shift,
        )),
        opens_file_search(*old(view), *keys, has_active_buffer) || opens_project_search(*old(view), *keys) ==> {
            &&& final(view).search_query@.len() == 0
            &&& final(view).search_results@.len() == 0
            &&& final(view).search_focus_requested
        },
        !(opens_file_search(*old(view), *keys, has_active_buffer) || opens_project_search(*old(view), *keys)) ==> {
            &&& final(view).search_query == old(view).search_query
            &&& final(view).search_results == old(view).search_results
            &&& final(view).search_focus_requested == old(view).search_focus_requested
        },
{
    toggle_panels(view, keys);
    search_shortcuts(view, keys, has_active_buffer);
    let open_folder = keys.o && keys.ctrl;
    let save = keys.s && keys.ctrl;
    let mut refresh_git = false;
    if keys.g && keys.ctrl {
        view.show_git_modal = !view.show_git_modal;
        if view.show_git_modal {
            refresh_git = true;
        }
    }
    if keys.escape {
        view.show_current_file_search_modal = false;
        view.show_project_search_modal = false;
    }
    ShortcutRequests { open_folder, save, refresh_git }
}

fn toggle_panels(view: &mut IdeView, keys: &ShortcutKeys)
    ensures
        *final(view) == (IdeView {
            show_file_modal: toggled(old(view).show_file_modal, keys.num1 && keys.ctrl),
            show_emulator_panel: toggled(old(view).show_emulator_panel, keys.num2 && keys.ctrl),
            show_ai_panel: toggled(old(view).show_ai_panel, keys.num3 && keys.ctrl),
            show_console_panel: toggled(old(view).show_console_panel, keys.num4 && keys.ctrl),
            show_settings: toggled(old(view).show_settings, keys.m && keys.ctrl),
            show_file_search_modal: old(view).show_file_search_modal || (keys.p && keys.ctrl),
            ..*old(view)
        }),
{
    if keys.num1 && keys.ctrl {
        view.show_file_modal = !view.show_file_modal;
    }
    if keys.num2 && keys.ctrl {
        view.show_emulator_panel = !view.show_emulator_panel;
    }
    if keys.num3 && keys.ctrl {
        view.show_ai_panel = !view.show_ai_panel;
    }
    if keys.num4 && keys.ctrl {
        view.show_console_panel = !view.show_console_panel;
    }
    if keys.m && keys.ctrl {
        view.show_settings = !view.show_settings;
    }
    if keys.p && keys.ctrl {
        view.show_file_search_modal = true;
    }
}

fn search_shortcuts(view: &mut IdeView, keys: &ShortcutKeys, has_active_buffer: bool)
    ensures
        final(view).show_current_file_search_modal == if keys.f && keys.ctrl && !keys.shift {
            if old(view).show_current_file_search_modal {
                false
            } else {
                has_active_buffer
            }
        } else {
            old(view).show_current_file_search_modal
        },
        final(view).show_project_search_modal == toggled(
            old(view).show_project_search_modal,
            keys.f && keys.ctrl && keys.shift,
        ),
        opens_file_search(*old(view), *keys, has_active_buffer) || opens_project_search(*old(view), *keys) ==> {
            &&& final(view).search_query@.len() == 0
            &&& final(view).search_results@.len() == 0
            &&& final(view).search_focus_requested
        },
        !(opens_file_search(*old(view), *keys, has_active_buffer) || opens_project_search(*old(view), *keys)) ==> {
            &&& final(view).search_query == old(view).search_query
            &&& final(view).search_results == old(view).search_results
            &&& final(view).search_focus_requested == old(view).search_focus_requested
        },
        final(view).show_file_modal == old(view).show_file_modal,
        final(view).show_emulator_panel == old(view).show_emulator_panel,
        final(view).show_ai_panel == old(view).show_ai_panel,
        final(view).show_console_panel == old(view).show_console_panel,
        final(view).show_settings == old(view).show_settings,
        final(view).show_git_modal == old(view).show_git_modal,
        final(view).show_file_search_modal == old(view).show_file_search_modal,
{
    if keys.f && keys.ctrl && !keys.shift {
        if view.show_current_file_search_modal {
            view.show_current_file_search_modal = false;
        } else if has_active_buffer {
            view.show_current_file_search_modal = true;
            view.search_query = String::new();
            view.search_results = Vec::new();
            view.search_focus_requested = true;
        }
    }
    if keys.f && keys.ctrl && keys.shift {
        if view.show_project_search_modal {
            view.show_project_search_modal = false;
        } else {
            view.show_project_search_modal = true;
            view.search_query = String::new();
            view.search_results = Vec::new();
            view.search_focus_requested = true;
        }
    }
}

/// After jumping to a search result, both search dialogs close; nothing
/// else changes.
pub fn search_result_opened(view: &mut IdeView)
    ensures
        *final(view) == (IdeView {
            show_current_file_search_modal: false,
            show_project_search_modal: false,
            ..*old(view)
        }),
{
    view.show_current_file_search_modal = false;
    view.show_project_search_modal = false;
}

/// A colour channel moved by `amount` and held to 0..=255.
pub open spec fn adjusted_channel(c: u8, amount: i16) -> u8 {
    let v = c as int + amount as int;
    if v < 0 {
        0
    } else if v > 255 {
        255
    } else {
        v as u8
    }
}

/// Moving a colour channel by nothing keeps it, and a move never leaves 0..=255
/// in the direction it goes past.
pub proof fn lemma_adjust_channel(c: u8, amount: i16)
    ensures
        adjusted_channel(c, 0) == c,
        amount >= 0 ==> adjusted_channel(c, amount) >= c,
        amount <= 0 ==> adjusted_channel(c, amount) <= c,
{
}

/// A colour channel moved by `amount` and held to 0..=255.
pub fn adjust_channel(c: u8, amount: i16) -> (r: u8)
    ensures
        r == adjusted_channel(c, amount),
{
    let v: i32 = c as i32 + amount as i32;
    if v < 0 {
        0
    } else if v > 255 {
        255
    } else {
        v as u8
    }
}

/// A colour with its red, green and blue moved by `amount`; alpha stays.
pub fn adjust_color(rgba: (u8, u8, u8, u8), amount: i16) -> (r: (u8, u8, u8, u8))
    ensures
        r == (adjusted_channel(rgba.0, amount), adjusted_channel(rgba.1, amount), adjusted_channel(rgba.2, amount), rgba.3),
{
    (adjust_channel(rgba.0, amount), adjust_channel(rgba.1, amount), adjust_channel(rgba.2, amount), rgba.3)
}

/// Passes changed settings on: a changed key goes to the assistant; a changed
/// model becomes the IDE's model and the assistant's. Returns which changed.
pub fn sync_settings(settings: &mut SettingsModal, assistant: &mut AIAssistant, ai_model: &mut String) -> (r: (bool, bool))
    ensures
        r.0 == old(settings).api_key_changed,
        r.1 == old(settings).ai_model_changed,
        !final(settings).api_key_changed,
        !final(settings).ai_model_changed,
        final(settings).api_key == old(settings).api_key,
        final(settings).ai_model == old(settings).ai_model,
        r.0 ==> final(assistant).api_key@ == old(settings).api_key@,
        !r.0 ==> final(assistant).api_key == old(assistant).api_key,
        r.1 ==> final(assistant).model@ == old(settings).ai_model@ && final(ai_model)@ == old(settings).ai_model@,
        !r.1 ==> final(assistant).model == old(assistant).model && *final(ai_model) == *old(ai_model),
        final(assistant).chat_history == old(assistant).chat_history,
{
    let key_changed = settings.take_api_key_changed();
    if key_changed {
        assistant.update_api_key(settings.get_api_key());
    }
    let model_changed = settings.take_ai_model_changed();
    if model_changed {
        let m = settings.get_ai_model();
        *ai_model = m.clone();
        assistant.update_model(m);
    }
    (key_changed, model_changed)
}

} // verus!
