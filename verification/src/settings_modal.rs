//! The settings dialog: its tabs, the assistant's key and model, and the app
//! creation fields.
use vstd::prelude::*;
use vstd::string::StringExecFns;
use crate::text::str_eq;

verus! {

/// The tabs of the settings dialog.
#[derive(Debug, Clone, Copy, PartialEq, Eq, Structural)]
pub enum SettingsTab {
    Personalization,
    AI,
    AppCreation,
    Extensions,
}

/// The models offered in the model list; the last one asks for a custom name.
pub open spec fn offered_models() -> Seq<Seq<char>> {
    seq![
        "deepseek-ai/DeepSeek-R1"@,
        "meta-llama/Meta-Llama-3.1-8B-Instruct-Turbo-128K"@,
        "Qwen/Qwen2-VL-72B-Instruct"@,
        "Other"@,
    ]
}

/// The models offered in the model list, in order.
pub fn model_choices() -> (r: Vec<String>)
    ensures
        r@.map_values(|s: String| s@) == offered_models(),
{
    let mut r: Vec<String> = Vec::new();
    r.push(String::from_str("deepseek-ai/DeepSeek-R1"));
    r.push(String::from_str("meta-llama/Meta-Llama-3.1-8B-Instruct-Turbo-128K"));
    r.push(String::from_str("Qwen/Qwen2-VL-72B-Instruct"));
    r.push(String::from_str("Other"));
    proof {
        reveal_strlit("deepseek-ai/DeepSeek-R1");
        reveal_strlit("meta-llama/Meta-Llama-3.1-8B-Instruct-Turbo-128K");
        reveal_strlit("Qwen/Qwen2-VL-72B-Instruct");
        reveal_strlit("Other");
    }
    assert(r@.map_values(|s: String| s@) =~= offered_models());
    r
}

/// The settings dialog's state.
pub struct SettingsModal {
    pub show: bool,
    pub settings_tab: SettingsTab,
    pub api_key: String,
    pub api_key_changed: bool,
    pub ai_model: String,
    pub ai_model_changed: bool,
    pub app_name: String,
    pub app_path: String,
    pub api_level: String,
}

impl SettingsModal {
    /// A hidden dialog on its first tab, with no key, the default model and
    /// API level 30.
    pub fn new() -> (m: Self)
        ensures
            !m.show,
            m.settings_tab == SettingsTab::Personalization,
            m.api_key@.len() == 0,
            !m.api_key_changed,
            m.ai_model@ == "Qwen/Qwen2.5-Coder-32B-Instruct"@,
            !m.ai_model_changed,
            m.app_name@.len() == 0,
            m.app_path@.len() == 0,
            m.api_level@ == "30"@,
    {
        SettingsModal {
            show: false,
            settings_tab: SettingsTab::Personalization,
            api_key: String::new(),
            api_key_changed: false,
            ai_model: String::from_str("Qwen/Qwen2.5-Coder-32B-Instruct"),
            ai_model_changed: false,
            app_name: String::new(),
            app_path: String::new(),
            api_level: String::from_str("30"),
        }
    }

    /// The API key.
    pub fn get_api_key(&self) -> (k: String)
        ensures
            k@ == self.api_key@,
    {
        self.api_key.clone()
    }

    /// Replaces the API key (without marking it changed).
    pub fn set_api_key(&mut self, key: String)
        ensures
            *final(self) == (SettingsModal { api_key: key, ..*old(self) }),
    {
        self.api_key = key;
    }

    /// Whether the key was edited since last asked; the mark is cleared.
    pub fn take_api_key_changed(&mut self) -> (changed: bool)
        ensures
            changed == old(self).api_key_changed,
            *final(self) == (SettingsModal { api_key_changed: false, ..*old(self) }),
    {
        let changed = self.api_key_changed;
        self.api_key_changed = false;
        changed
    }

    /// The model.
    pub fn get_ai_model(&self) -> (m: String)
        ensures
            m@ == self.ai_model@,
    {
        self.ai_model.clone()
    }

    /// Replaces the model (without marking it changed).
    pub fn set_ai_model(&mut self, model: String)
        ensures
            *final(self) == (SettingsModal { ai_model: model, ..*old(self) }),
    {
        self.ai_model = model;
    }

    /// Whether the model was changed since last asked; the mark is cleared.
    pub fn take_ai_model_changed(&mut self) -> (changed: bool)
        ensures
            changed == old(self).ai_model_changed,
            *final(self) == (SettingsModal { ai_model_changed: false, ..*old(self) }),
    {
        let changed = self.ai_model_changed;
        self.ai_model_changed = false;
        changed
    }

    /// The key was typed: it is replaced and marked changed.
    pub fn edit_api_key(&mut self, key: String)
        ensures
            *final(self) == (SettingsModal { api_key: key, api_key_changed: true, ..*old(self) }),
    {
        self.api_key = key;
        self.api_key_changed = true;
    }

    /// A model was picked from the list: when it differs from the current one
    /// it becomes the model (`Other` clears it for a custom name) and is marked
    /// changed.
    pub fn select_model(&mut self, selected: String)
        ensures
            selected@ == old(self).ai_model@ ==> *final(self) == *old(self),
            selected@ != old(self).ai_model@ ==> {
                &&& final(self).ai_model_changed
                &&& final(self).ai_model@ == if selected@ == "Other"@ {
                    Seq::<char>::empty()
                } else {
                    selected@
                }
                &&& *final(self) == (SettingsModal {
                    ai_model: final(self).ai_model,
                    ai_model_changed: true,
                    ..*old(self)
                })
            },
    {
        if str_eq(selected.as_str(), self.ai_model.as_str()) {
            return;
        }
        if str_eq(selected.as_str(), "Other") {
            self.ai_model = String::new();
        } else {
            self.ai_model = selected;
        }
        self.ai_model_changed = true;
    }

    /// A custom model name was typed: it becomes the model, marked changed.
    pub fn edit_custom_model(&mut self, model: String)
        ensures
            *final(self) == (SettingsModal { ai_model: model, ai_model_changed: true, ..*old(self) }),
    {
        self.ai_model = model;
        self.ai_model_changed = true;
    }

    /// Whether the custom model field is shown: the model is empty.
    pub fn shows_custom_model(&self) -> (b: bool)
        ensures
            b == (self.ai_model@.len() == 0),
    {
        self.ai_model.as_str().is_empty()
    }

    /// Settings are usable when both the key and the model are set.
    pub fn validate_settings(&self) -> (b: bool)
        ensures
            b == (self.api_key@.len() > 0 && self.ai_model@.len() > 0),
    {
        !self.api_key.as_str().is_empty() && !self.ai_model.as_str().is_empty()
    }
}

} // verus!
