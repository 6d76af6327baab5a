//! The git pane's staging view: what each changed file's row shows and
//! offers, and when a commit can be made.
use vstd::prelude::*;
use crate::commands::GitCommand;
use crate::git::{change_label, opt_text, FileChange, FileStatus, RepoStatus};
use crate::text::{append_str, chars_of, string_of, trim, trim_of};

verus! {

broadcast use vstd::string::group_string_axioms;

/// The style class of a change's badge.
pub open spec fn change_css_of(c: FileChange) -> Seq<char> {
    match c {
        FileChange::Added => "status-added"@,
        FileChange::Modified => "status-modified"@,
        FileChange::Deleted => "status-deleted"@,
        FileChange::Renamed => "status-renamed"@,
        FileChange::Conflict => "status-conflict"@,
        _ => "status-other"@,
    }
}

/// The style class of a change's badge.
pub fn change_css(c: FileChange) -> (s: &'static str)
    ensures
        s@ == change_css_of(c),
{
    match c {
        FileChange::Added => "status-added",
        FileChange::Modified => "status-modified",
        FileChange::Deleted => "status-deleted",
        FileChange::Renamed => "status-renamed",
        FileChange::Conflict => "status-conflict",
        _ => "status-other",
    }
}

/// The name a row shows: `old → new` for a renamed file, else its path.
pub open spec fn display_name_of(path: Seq<char>, old_path: Option<Seq<char>>) -> Seq<char> {
    match old_path {
        Some(old) => old + " \u{2192} "@ + path,
        None => path,
    }
}

/// What a changed file's row shows and offers: its badge and the badge's
/// style class, its name, the label of its button (`unstage` for a staged
/// file, `stage` otherwise), and whether it offers to discard the change
/// (an unstaged change that is not an added file).
pub struct FileRowPlan {
    pub badge: &'static str,
    pub badge_class: &'static str,
    pub name: String,
    pub action: &'static str,
    pub discard: bool,
}

/// What a changed file's row shows and offers.
pub fn file_row_plan(file: &FileStatus, is_staged: bool) -> (p: FileRowPlan)
    ensures
        p.badge@ == change_label(file.status),
        p.badge_class@ == change_css_of(file.status),
        p.name@ == display_name_of(file.path@, opt_text(file.old_path)),
        p.action@ == (if is_staged { "unstage"@ } else { "stage"@ }),
        p.discard == (!is_staged && file.status != FileChange::Added),
{
    let name = match &file.old_path {
        Some(old) => {
            let mut out = chars_of(old.as_str());
            append_str(&mut out, " \u{2192} ");
            append_str(&mut out, file.path.as_str());
            string_of(&out)
        },
        None => file.path.clone(),
    };
    FileRowPlan {
        badge: file.status.label(),
        badge_class: change_css(file.status),
        name,
        action: if is_staged { "unstage" } else { "stage" },
        discard: !is_staged && file.status != FileChange::Added,
    }
}

/// The git command of a row's button: unstage a staged file, stage any
/// other.
pub fn row_command(file: &FileStatus, is_staged: bool) -> (c: GitCommand)
    ensures
        is_staged ==> (c matches GitCommand::UnstageFile { path } && path@ == file.path@),
        !is_staged ==> (c matches GitCommand::StageFile { path } && path@ == file.path@),
{
    if is_staged {
        GitCommand::UnstageFile { path: file.path.clone() }
    } else {
        GitCommand::StageFile { path: file.path.clone() }
    }
}

/// Whether a commit can be made: something is staged and nothing is in
/// conflict.
pub fn can_commit(status: &RepoStatus) -> (r: bool)
    ensures
        r == (status.staged@.len() > 0 && status.conflicted@.len() == 0),
{
    status.staged.len() > 0 && status.conflicted.len() == 0
}

/// Whether the commit button is live: a commit can be made and the
/// message is not blank.
pub fn commit_enabled(can_commit: bool, message: &str) -> (r: bool)
    ensures
        r == (can_commit && trim_of(message@).len() > 0),
{
    can_commit && trim(&chars_of(message)).len() > 0
}

} // verus!
