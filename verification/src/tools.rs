//! Names of the built-in tools.

use vstd::prelude::*;

verus! {

pub const AGENT: &'static str = "Agent";

pub const READ: &'static str = "Read";

pub const GREP: &'static str = "Grep";

pub const GLOB: &'static str = "Glob";

pub const LS: &'static str = "Ls";

pub const BASH: &'static str = "Bash";

pub const TASK_STOP: &'static str = "TaskStop";

pub const WRITE: &'static str = "Write";

pub const EDIT: &'static str = "Edit";

pub const UPDATE_PLAN: &'static str = "UpdatePlan";

pub const ASK_USER_QUESTION: &'static str = "AskUserQuestion";

pub const ENTER_WORKTREE: &'static str = "EnterWorktree";

pub const EXIT_WORKTREE: &'static str = "ExitWorktree";

pub const CREATE_GOAL: &'static str = "CreateGoal";

/// The built-in tools go by these names.
pub proof fn built_in_tools_go_by_name()
    ensures
        AGENT@ == "Agent"@,
        READ@ == "Read"@,
        GREP@ == "Grep"@,
        GLOB@ == "Glob"@,
        LS@ == "Ls"@,
        BASH@ == "Bash"@,
        TASK_STOP@ == "TaskStop"@,
        WRITE@ == "Write"@,
        EDIT@ == "Edit"@,
        UPDATE_PLAN@ == "UpdatePlan"@,
        ASK_USER_QUESTION@ == "AskUserQuestion"@,
        ENTER_WORKTREE@ == "EnterWorktree"@,
        EXIT_WORKTREE@ == "ExitWorktree"@,
        CREATE_GOAL@ == "CreateGoal"@,
{
}

} // verus!
