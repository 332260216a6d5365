//! The command handlers: each parsed command becomes a store mutation
//! and/or a list of status lines for the caller to print. Task and
//! report commands are accepted but only answer with a status line;
//! they read and change no store state.

use crate::store::{has_name, start_result, Data, StartOutcome};
use crate::text::{dec_str, trim, trim_spec, u32_to_string};
use vstd::prelude::*;
use vstd::string::StringExecFns;

verus! {

/// A project command as the dispatcher receives it.
pub enum ProjectCommand {
    List,
    Start { name: String },
    Stop { id: u32 },
    Get { id: u32 },
    Select { id: u32 },
}

/// A task command; all of them are stubs that only answer with text.
pub enum TaskCommand {
    List,
    Add { name: String, end_time: Option<String> },
    Complete { id: u32 },
}

/// A report command; all of them are stubs that only answer with text.
pub enum ReportCommand {
    Daily,
    Rusted,
    All,
}

/// What handling a project command asks of the caller: the status lines
/// to print, and whether the store changed and must be saved.
pub struct Reply {
    pub lines: Vec<String>,
    pub save_needed: bool,
}

/// The heading over the project listing.
pub open spec fn list_header() -> Seq<char> {
    "List of projects:"@
}

/// One line of the project listing.
pub open spec fn list_entry(name: Seq<char>) -> Seq<char> {
    " - "@ + name
}

/// The confirmation for a newly started project.
pub open spec fn created_msg(name: Seq<char>) -> Seq<char> {
    "Starting a new project: "@ + name
}

/// The notice for a start request whose name is already taken.
pub open spec fn exists_msg(name: Seq<char>) -> Seq<char> {
    "Project "@ + name + " already exists"@
}

/// The notice for a start request whose name trims to nothing.
pub open spec fn empty_name_msg() -> Seq<char> {
    "Project name cannot be empty"@
}

pub open spec fn stop_msg(id: u32) -> Seq<char> {
    "Stopping project with id "@ + dec_str(id as nat)
}

pub open spec fn get_msg(id: u32) -> Seq<char> {
    "Getting details of project with id "@ + dec_str(id as nat)
}

pub open spec fn select_msg(id: u32) -> Seq<char> {
    "Selecting project with id "@ + dec_str(id as nat)
}

pub open spec fn add_msg(name: Seq<char>, end: Seq<char>) -> Seq<char> {
    "Adding a new task with name "@ + name + " and end time "@ + end
}

pub open spec fn complete_msg(id: u32) -> Seq<char> {
    "Completing task with id "@ + dec_str(id as nat)
}

impl Data {
    /// Routes one project command: `List` reports every stored name in
    /// order, `Start` trims and adds the name unless it is taken or
    /// trims to nothing, and the id commands only answer with a status
    /// line. The reply asks for a save exactly when the store changed.
    pub fn handle_project(&mut self, cmd: ProjectCommand) -> (r: Reply)
        ensures
            final(self).filename == old(self).filename,
            old(self).wf() ==> final(self).wf(),
            match cmd {
                ProjectCommand::List => *final(self) == *old(self) && r.save_needed == false
                    && r.lines.deep_view() == seq![list_header()] + old(self).names().map_values(
                    |n: Seq<char>| list_entry(n),
                ),
                ProjectCommand::Start { name } => {
                    let t = trim_spec(name@);
                    &&& final(self).names() == start_result(old(self).names(), t)
                    &&& if t.len() == 0 {
                        r.save_needed == false && *final(self) == *old(self)
                            && r.lines.deep_view() == seq![empty_name_msg()]
                    } else if has_name(old(self).names(), t) {
                        r.save_needed == false && *final(self) == *old(self)
                            && r.lines.deep_view() == seq![exists_msg(t)]
                    } else {
                        r.save_needed == true && r.lines.deep_view() == seq![created_msg(t)]
                    }
                },
                ProjectCommand::Stop { id } => *final(self) == *old(self) && r.save_needed
                    == false && r.lines.deep_view() == seq![stop_msg(id)],
                ProjectCommand::Get { id } => *final(self) == *old(self) && r.save_needed == false
                    && r.lines.deep_view() == seq![get_msg(id)],
                ProjectCommand::Select { id } => *final(self) == *old(self) && r.save_needed
                    == false && r.lines.deep_view() == seq![select_msg(id)],
            },
    {
        match cmd {
            ProjectCommand::List => {
                let mut lines: Vec<String> = Vec::new();
                lines.push(String::from_str("List of projects:"));
                let ghost mapped = self.names().map_values(|n: Seq<char>| list_entry(n));
                proof {
                    assert(lines.deep_view() =~= seq![list_header()] + mapped.take(0));
                }
                let mut k: usize = 0;
                while k < self.projects.len()
                    invariant
                        0 <= k <= self.projects.len(),
                        *self == *old(self),
                        mapped == self.names().map_values(|n: Seq<char>| list_entry(n)),
                        lines.deep_view() == seq![list_header()] + mapped.take(k as int),
                    decreases self.projects.len() - k,
                {
                    let ghost before = lines.deep_view();
                    let mut entry = String::from_str(" - ");
                    entry.append(self.projects[k].name.as_str());
                    lines.push(entry);
                    proof {
                        assert(entry@ == list_entry(self.names()[k as int]));
                        assert(mapped[k as int] == list_entry(self.names()[k as int]));
                        assert(lines.deep_view() =~= before.push(mapped[k as int]));
                        assert(lines.deep_view() =~= seq![list_header()] + mapped.take(k + 1));
                    }
                    k = k + 1;
                }
                proof {
                    assert(mapped.take(mapped.len() as int) =~= mapped);
                }
                Reply { lines, save_needed: false }
            },
            ProjectCommand::Start { name } => {
                let outcome = self.start(name.as_str());
                let trimmed = trim(name.as_str());
                let mut lines: Vec<String> = Vec::new();
                match outcome {
                    StartOutcome::Created => {
                        let mut msg = String::from_str("Starting a new project: ");
                        msg.append(trimmed);
                        lines.push(msg);
                        proof {
                            assert(lines.deep_view() =~= seq![created_msg(trim_spec(name@))]);
                        }
                        Reply { lines, save_needed: true }
                    },
                    StartOutcome::AlreadyExists => {
                        let mut msg = String::from_str("Project ");
                        msg.append(trimmed);
                        msg.append(" already exists");
                        lines.push(msg);
                        proof {
                            assert(lines.deep_view() =~= seq![exists_msg(trim_spec(name@))]);
                        }
                        Reply { lines, save_needed: false }
                    },
                    StartOutcome::EmptyName => {
                        lines.push(String::from_str("Project name cannot be empty"));
                        proof {
                            assert(lines.deep_view() =~= seq![empty_name_msg()]);
                        }
                        Reply { lines, save_needed: false }
                    },
                }
            },
            ProjectCommand::Stop { id } => {
                let mut msg = String::from_str("Stopping project with id ");
                msg.append(u32_to_string(id).as_str());
                let mut lines: Vec<String> = Vec::new();
                lines.push(msg);
                proof {
                    assert(lines.deep_view() =~= seq![stop_msg(id)]);
                }
                Reply { lines, save_needed: false }
            },
            ProjectCommand::Get { id } => {
                let mut msg = String::from_str("Getting details of project with id ");
                msg.append(u32_to_string(id).as_str());
                let mut lines: Vec<String> = Vec::new();
                lines.push(msg);
                proof {
                    assert(lines.deep_view() =~= seq![get_msg(id)]);
                }
                Reply { lines, save_needed: false }
            },
            ProjectCommand::Select { id } => {
                let mut msg = String::from_str("Selecting project with id ");
                msg.append(u32_to_string(id).as_str());
                let mut lines: Vec<String> = Vec::new();
                lines.push(msg);
                proof {
                    assert(lines.deep_view() =~= seq![select_msg(id)]);
                }
                Reply { lines, save_needed: false }
            },
        }
    }

    /// Answers one task command with its status line; no task state
    /// exists yet, so nothing is read or changed.
    pub fn handle_task(&self, cmd: TaskCommand) -> (msg: String)
        ensures
            match cmd {
                TaskCommand::List => msg@ == "Listing tasks"@,
                TaskCommand::Add { name, end_time } => msg@ == add_msg(
                    name@,
                    match end_time {
                        Some(e) => e@,
                        None => "None"@,
                    },
                ),
                TaskCommand::Complete { id } => msg@ == complete_msg(id),
            },
    {
        match cmd {
            TaskCommand::List => String::from_str("Listing tasks"),
            TaskCommand::Add { name, end_time } => {
                let mut msg = String::from_str("Adding a new task with name ");
                msg.append(name.as_str());
                msg.append(" and end time ");
                match end_time {
                    Some(e) => msg.append(e.as_str()),
                    None => msg.append("None"),
                }
                msg
            },
            TaskCommand::Complete { id } => {
                let mut msg = String::from_str("Completing task with id ");
                msg.append(u32_to_string(id).as_str());
                msg
            },
        }
    }

    /// Answers one report command with its status line; reports have no
    /// data to draw on yet.
    pub fn handle_report(&self, cmd: ReportCommand) -> (msg: String)
        ensures
            match cmd {
                ReportCommand::Daily => msg@ == "Showing tasks for today"@,
                ReportCommand::Rusted => msg@ == "Showing projects that is about to be rusted"@,
                ReportCommand::All => msg@ == "Showing all tasks to be done"@,
            },
    {
        match cmd {
            ReportCommand::Daily => String::from_str("Showing tasks for today"),
            ReportCommand::Rusted => String::from_str(
                "Showing projects that is about to be rusted",
            ),
            ReportCommand::All => String::from_str("Showing all tasks to be done"),
        }
    }
}

} // verus!
