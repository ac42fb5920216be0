//! Extension events and commands, and what the console shows of a command.
use vstd::prelude::*;
use vstd::string::StringExecFns;

verus! {

/// Something that happened in the IDE, told to extensions.
#[derive(Debug, Clone)]
pub enum ExtensionEvent {
    FileSaved(String),
    FileOpened(String),
    ProjectLoaded(String),
    EditorContentChanged(String),
    BeforeBuild,
    AfterBuild,
    Custom(String),
}

/// Something an extension asks the IDE to do.
#[derive(Debug, Clone)]
pub enum ExtensionCommand {
    Log(String),
    ShowNotification(String),
    OpenFile(String),
    SetEditorContent(String),
    ExecuteTerminalCommand(String),
}

/// The console line that handling a command writes.
pub open spec fn command_log_text(c: ExtensionCommand) -> Seq<char> {
    match c {
        ExtensionCommand::Log(m) => m@,
        ExtensionCommand::ShowNotification(m) => "Notification: "@ + m@,
        ExtensionCommand::OpenFile(p) => "Requested to open: "@ + p@,
        ExtensionCommand::SetEditorContent(_) => "Received editor content update request"@,
        ExtensionCommand::ExecuteTerminalCommand(c) => "Requested to execute: "@ + c@,
    }
}

/// The console line for a command (see `command_log_text`).
pub fn command_log_line(command: &ExtensionCommand) -> (r: String)
    ensures
        r@ == command_log_text(*command),
{
    match command {
        ExtensionCommand::Log(m) => m.clone(),
        ExtensionCommand::ShowNotification(m) => {
            let mut r = String::from_str("Notification: ");
            r.append(m.as_str());
            r
        },
        ExtensionCommand::OpenFile(p) => {
            let mut r = String::from_str("Requested to open: ");
            r.append(p.as_str());
            r
        },
        ExtensionCommand::SetEditorContent(_) => String::from_str("Received editor content update request"),
        ExtensionCommand::ExecuteTerminalCommand(c) => {
            let mut r = String::from_str("Requested to execute: ");
            r.append(c.as_str());
            r
        },
    }
}

/// The console lines for a batch of commands, in order.
pub fn process_commands(commands: &Vec<ExtensionCommand>) -> (r: Vec<String>)
    ensures
        r@.len() == commands@.len(),
        forall|k: int| 0 <= k < r@.len() ==> (#[trigger] r@[k])@ == command_log_text(commands@[k]),
{
    let mut r: Vec<String> = Vec::new();
    let mut i: usize = 0;
    while i < commands.len()
        invariant
            i <= commands@.len(),
            r@.len() == i,
            forall|k: int| 0 <= k < i ==> (#[trigger] r@[k])@ == command_log_text(commands@[k]),
        decreases commands@.len() - i,
    {
        r.push(command_log_line(&commands[i]));
        i = i + 1;
    }
    r
}

} // verus!
