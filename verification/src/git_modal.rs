//! The Git history dialog: the repository it shows and its commits.
use vstd::prelude::*;
use vstd::string::StringExecFns;
use crate::git_manager::{GitCommit, GitManager};

verus! {

/// The dialog's state.
pub struct GitModal {
    pub show: bool,
    pub git_manager: Option<GitManager>,
    pub commits: Vec<GitCommit>,
}

/// The message after a reset to `hash` succeeded.
pub open spec fn reset_done_text(hash: Seq<char>) -> Seq<char> {
    "Successfully reset to commit "@ + hash
}

impl GitModal {
    /// A hidden dialog with no repository.
    pub fn new() -> (m: Self)
        ensures
            !m.show,
            m.git_manager.is_none(),
            m.commits@.len() == 0,
    {
        GitModal { show: false, git_manager: None, commits: Vec::new() }
    }

    /// Takes up the project's repository: `history` is none when the project
    /// is not a repository, else what reading its history gave. The dialog
    /// keeps the repository only when its history was read.
    pub fn update_git_manager(
        &mut self,
        project_path: Option<String>,
        history: Option<Result<Vec<GitCommit>, String>>,
    )
        ensures
            match (project_path, history) {
                (Some(p), Some(Ok(cs))) => final(self).git_manager matches Some(g) && g.repo_path@ == p@
                    && !g.is_checking_out && final(self).commits == cs,
                _ => final(self).git_manager.is_none() && final(self).commits@.len() == 0,
            },
            final(self).show == old(self).show,
    {
        self.commits = Vec::new();
        self.git_manager = None;
        match project_path {
            Some(p) => match history {
                Some(Ok(cs)) => {
                    self.commits = cs;
                    self.git_manager = Some(GitManager::new(p));
                },
                _ => {},
            },
            None => {},
        }
    }

    /// The message after a reset to `hash` succeeded.
    pub fn reset_done_message(hash: &str) -> (r: String)
        ensures
            r@ == reset_done_text(hash@),
    {
        let mut r = String::from_str("Successfully reset to commit ");
        r.append(hash);
        r
    }
}

} // verus!
