//! The console panel: a terminal that follows the open project.
use vstd::prelude::*;
use vstd::string::StringExecFns;
use crate::terminal::{Terminal, TerminalLine, LineStyle};
use crate::code_editor::opt_str;
use crate::text::str_eq;

verus! {

/// The console panel's state.
pub struct ConsolePanel {
    pub terminal: Terminal,
    pub project_path: Option<String>,
}

impl ConsolePanel {
    /// A console whose terminal starts in `default_path`, with no project.
    pub fn new(default_path: String) -> (c: Self)
        ensures
            c.terminal.current_directory == default_path,
            c.terminal.output@.len() == 0,
            c.project_path.is_none(),
    {
        ConsolePanel { terminal: Terminal::new(default_path), project_path: None }
    }

    /// Whether the console must move to the file browser's project: it is
    /// set and differs from the console's.
    pub fn follows(&self, project: &Option<String>) -> (b: bool)
        ensures
            b == (project.is_some() && opt_str(*project) != opt_str(self.project_path)),
    {
        match project {
            Some(p) => match &self.project_path {
                Some(q) => !str_eq(p.as_str(), q.as_str()),
                None => true,
            },
            None => false,
        }
    }

    /// Moves to a project: a fresh terminal starts there.
    pub fn set_project_path(&mut self, path: String)
        ensures
            opt_str(final(self).project_path) == Some(path@),
            final(self).terminal.current_directory@ == path@,
            final(self).terminal.output@.len() == 0,
            final(self).terminal.command_history@.len() == 0,
    {
        self.project_path = Some(path.clone());
        self.terminal = Terminal::new(path);
    }

    /// Writes a message to the terminal.
    pub fn log(&mut self, message: &str)
        ensures
            final(self).terminal.output@.len() == old(self).terminal.output@.len() + 1,
            final(self).terminal.output@.drop_last() == old(self).terminal.output@,
            final(self).terminal.output@.last().text@ == message@,
            final(self).terminal.output@.last().style is Default,
            final(self).project_path == old(self).project_path,
    {
        self.terminal.add_output(String::from_str(message));
        assert(self.terminal.output@.drop_last() =~= old(self).terminal.output@);
    }

    /// Sets the terminal's directory.
    pub fn set_current_directory(&mut self, path: String)
        ensures
            final(self).terminal.current_directory == path,
            final(self).terminal.output == old(self).terminal.output,
            final(self).project_path == old(self).project_path,
    {
        self.terminal.current_directory = path;
    }
}

} // verus!
