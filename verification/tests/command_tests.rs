use pms::commands::{ProjectCommand, ReportCommand, TaskCommand};
use pms::store::{Data, FileRead};

#[test]
fn project_list_reports_every_name() {
    let (mut d, _) = Data::load("data", FileRead::Content("A\nB\n".to_string()));
    let reply = d.handle_project(ProjectCommand::List);
    assert!(!reply.save_needed);
    assert_eq!(
        reply.lines,
        vec![
            "List of projects:".to_string(),
            " - A".to_string(),
            " - B".to_string()
        ]
    );
}

#[test]
fn project_start_fresh_name() {
    let mut d = Data::new();
    let reply = d.handle_project(ProjectCommand::Start { name: "  X  ".to_string() });
    assert!(reply.save_needed);
    assert_eq!(reply.lines, vec!["Starting a new project: X".to_string()]);
    assert_eq!(d.list(), vec!["X".to_string()]);
}

#[test]
fn project_start_duplicate_name() {
    let mut d = Data::new();
    d.handle_project(ProjectCommand::Start { name: "X".to_string() });
    let reply = d.handle_project(ProjectCommand::Start { name: "X".to_string() });
    assert!(!reply.save_needed);
    assert_eq!(reply.lines, vec!["Project X already exists".to_string()]);
    assert_eq!(d.list(), vec!["X".to_string()]);
}

#[test]
fn project_start_trim_equal_stored_name() {
    let (mut d, _) = Data::load("data", FileRead::Content(" Foo \n".to_string()));
    let reply = d.handle_project(ProjectCommand::Start { name: "Foo".to_string() });
    assert!(!reply.save_needed);
    assert_eq!(reply.lines, vec!["Project Foo already exists".to_string()]);
    assert_eq!(d.list(), vec![" Foo ".to_string()]);
}

#[test]
fn project_start_empty_name() {
    let mut d = Data::new();
    let reply = d.handle_project(ProjectCommand::Start { name: "   ".to_string() });
    assert!(!reply.save_needed);
    assert_eq!(reply.lines, vec!["Project name cannot be empty".to_string()]);
    assert_eq!(d.list(), Vec::<String>::new());
}

#[test]
fn project_id_commands_answer_status_lines() {
    let mut d = Data::new();
    let stop = d.handle_project(ProjectCommand::Stop { id: 42 });
    assert!(!stop.save_needed);
    assert_eq!(stop.lines, vec!["Stopping project with id 42".to_string()]);
    let get = d.handle_project(ProjectCommand::Get { id: 0 });
    assert_eq!(get.lines, vec!["Getting details of project with id 0".to_string()]);
    let select = d.handle_project(ProjectCommand::Select { id: 7 });
    assert_eq!(select.lines, vec!["Selecting project with id 7".to_string()]);
    assert_eq!(d.list(), Vec::<String>::new());
}

#[test]
fn task_commands_answer_status_lines() {
    let d = Data::new();
    assert_eq!(d.handle_task(TaskCommand::List), "Listing tasks");
    assert_eq!(
        d.handle_task(TaskCommand::Add {
            name: "wash".to_string(),
            end_time: Some("tomorrow".to_string())
        }),
        "Adding a new task with name wash and end time tomorrow"
    );
    assert_eq!(
        d.handle_task(TaskCommand::Add { name: "wash".to_string(), end_time: None }),
        "Adding a new task with name wash and end time None"
    );
    assert_eq!(
        d.handle_task(TaskCommand::Complete { id: 3 }),
        "Completing task with id 3"
    );
}

#[test]
fn report_commands_answer_status_lines() {
    let d = Data::new();
    assert_eq!(d.handle_report(ReportCommand::Daily), "Showing tasks for today");
    assert_eq!(
        d.handle_report(ReportCommand::Rusted),
        "Showing projects that is about to be rusted"
    );
    assert_eq!(d.handle_report(ReportCommand::All), "Showing all tasks to be done");
}
