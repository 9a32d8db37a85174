use machich::tools::{parse_date, parse_placement, parse_scope, parse_todo_id};
use machich::{
    AddTodoParams, CalendarDate, Content, DeleteTodoParams, DetailField, GetTodoParams, ListScope,
    ListTodosParams, MarkDoneParams, MarkPendingParams, MovePlacement, MoveTodoParams,
    ProjectStatus, TodoError, TodoService, ToolError, UpdateTodoParams, Vertical, WeekStart,
};

fn day(y: i32, m: u32, d: u32) -> CalendarDate {
    CalendarDate::from_ymd(y, m, d).unwrap()
}

fn add_params(title: &str, scheduled_for: Option<&str>) -> AddTodoParams {
    AddTodoParams {
        title: title.to_string(),
        scheduled_for: scheduled_for.map(|s| s.to_string()),
        notes: None,
        project: None,
        epic_id: None,
    }
}

#[test]
fn identifiers_parse_and_print() {
    let text = "67e55044-10b1-426f-9247-bb680e5fe0c8";
    assert_eq!(parse_todo_id(text), Ok(0x67e5504410b1426f9247bb680e5fe0c8));
    assert_eq!(parse_todo_id("not-a-uuid"), Err(TodoError::InvalidUuid));
}

#[test]
fn dates_and_scopes_parse() {
    let today = day(2024, 1, 10);
    assert_eq!(parse_date(" 2024-02-29 "), Ok(day(2024, 2, 29)));
    assert_eq!(parse_date("2023-02-29"), Err(ToolError::InvalidDate));
    assert_eq!(parse_scope("Today", today), Ok(ListScope::Day(today)));
    assert_eq!(parse_scope(" someday ", today), Ok(ListScope::Backlog));
    assert_eq!(parse_scope("BACKLOG", today), Ok(ListScope::Backlog));
    assert_eq!(parse_scope("2024-03-05", today), Ok(ListScope::Day(day(2024, 3, 5))));
    assert_eq!(parse_scope("soon", today), Err(ToolError::InvalidScope));
    assert_eq!(parse_placement(&Some(" Bottom".to_string())), MovePlacement::Bottom);
    assert_eq!(parse_placement(&Some("top".to_string())), MovePlacement::Top);
    assert_eq!(parse_placement(&None), MovePlacement::Top);
}

#[test]
fn add_tool_reports_location() {
    let mut service = TodoService::new();
    let today = day(2024, 1, 10);
    let r = add_params("a", None).execute(&mut service, today).unwrap();
    assert_eq!(r.message, "Todo added to today");
    assert_eq!(r.scheduled_for, Some("2024-01-10".to_string()));
    assert_eq!(r.status, "pending");
    let r = add_params("b", Some("backlog")).execute(&mut service, today).unwrap();
    assert_eq!(r.message, "Todo added to backlog");
    assert_eq!(r.scheduled_for, None);
    let r = add_params("c", Some("2024-01-12")).execute(&mut service, today).unwrap();
    assert_eq!(r.message, "Todo added to 2024-01-12");
    assert_eq!(r.id.len(), 36);
    assert_eq!(parse_todo_id(&r.id).map(|id| service.get(id).unwrap().title), Ok("c".to_string()));
    let bad = add_params("d", Some("12/01/2024")).execute(&mut service, today);
    assert_eq!(bad, Err(ToolError::InvalidDate));
    let mut p = add_params("e", None);
    p.epic_id = Some("nope".into());
    assert_eq!(p.execute(&mut service, today), Err(ToolError::Todo(TodoError::InvalidUuid)));
    assert_eq!(service.records().len(), 3);
}

#[test]
fn tools_describe_epics_and_status() {
    let mut service = TodoService::new();
    let today = day(2024, 1, 10);
    let epic = add_params("epic: Auth", Some("backlog")).execute(&mut service, today).unwrap();
    let mut p = add_params("login", None);
    p.epic_id = Some(epic.id.clone());
    let child = p.execute(&mut service, today).unwrap();
    assert_eq!(child.epic_id, Some(epic.id.clone()));
    assert_eq!(child.epic_title, Some("epic: Auth".to_string()));
    let done = MarkDoneParams { id: child.id.clone() }.execute(&mut service, today).unwrap();
    assert_eq!(done.status, "done");
    assert_eq!(done.message, "Todo marked as done");
    let pending = MarkPendingParams { id: child.id.clone() }.execute(&mut service).unwrap();
    assert_eq!(pending.status, "pending");
    let got = GetTodoParams { id: child.id.clone() }.execute(&service).unwrap();
    assert_eq!(got.title, "login");
    assert_eq!(got.epic_title, Some("epic: Auth".to_string()));
    assert!(got.created_at.starts_with("20"));
    let del = DeleteTodoParams { id: epic.id.clone() }.execute(&mut service);
    assert_eq!(del, Err(ToolError::Todo(TodoError::HasChildren(1))));
    let del = DeleteTodoParams { id: child.id.clone() }.execute(&mut service).unwrap();
    assert!(del.deleted);
    assert_eq!(del.message, "Todo deleted");
    let again = DeleteTodoParams { id: child.id.clone() }.execute(&mut service);
    let child_id = parse_todo_id(&child.id).unwrap();
    assert_eq!(again, Err(ToolError::Todo(TodoError::NotFound(child_id))));
}

#[test]
fn move_and_update_tools() {
    let mut service = TodoService::new();
    let today = day(2024, 1, 10);
    let t = add_params("t", Some("backlog")).execute(&mut service, today).unwrap();
    let moved = MoveTodoParams { id: t.id.clone(), scope: "today".into(), placement: None }
        .execute(&mut service, today)
        .unwrap();
    assert_eq!(moved.message, "Todo moved to today");
    let moved = MoveTodoParams {
        id: t.id.clone(),
        scope: "2024-02-01".into(),
        placement: Some("bottom".into()),
    }
    .execute(&mut service, today)
    .unwrap();
    assert_eq!(moved.message, "Todo moved to 2024-02-01");
    let upd = UpdateTodoParams {
        id: t.id.clone(),
        title: Some("u".into()),
        scheduled_for: Some("null".into()),
        notes: Some("".into()),
        project: Some("proj".into()),
        epic_id: None,
    }
    .execute(&mut service)
    .unwrap();
    assert_eq!(upd.message, "Updated: title, scheduled_for, notes, project");
    assert_eq!(upd.title, "u");
    assert_eq!(upd.scheduled_for, None);
    assert_eq!(upd.notes, None);
    assert_eq!(upd.project, Some("proj".into()));
    let none = UpdateTodoParams {
        id: t.id.clone(),
        title: None,
        scheduled_for: None,
        notes: None,
        project: None,
        epic_id: None,
    }
    .execute(&mut service)
    .unwrap();
    assert_eq!(none.message, "Updated: no changes");
}

#[test]
fn list_tool_filters_and_counts() {
    let mut service = TodoService::new();
    let today = day(2024, 1, 10);
    let mut p = add_params("a", None);
    p.project = Some("x".into());
    p.notes = Some("note".into());
    p.execute(&mut service, today).unwrap();
    add_params("b", None).execute(&mut service, today).unwrap();
    let all = ListTodosParams {
        scope: None,
        include_done: None,
        include_notes: Some(true),
        project: None,
        no_project: None,
        epic_id: None,
    }
    .execute(&service, today)
    .unwrap();
    assert_eq!(all.count, 2);
    assert_eq!(all.scope, "today");
    assert_eq!(all.todos[0].title, "b");
    assert_eq!(all.todos[1].notes, Some("note".into()));
    let only_x = ListTodosParams {
        scope: Some("today".into()),
        include_done: Some(false),
        include_notes: None,
        project: Some("x".into()),
        no_project: None,
        epic_id: None,
    }
    .execute(&service, today)
    .unwrap();
    assert_eq!(only_x.count, 1);
    assert_eq!(only_x.todos[0].notes, None);
    let bad = ListTodosParams {
        scope: Some("whenever".into()),
        include_done: None,
        include_notes: None,
        project: None,
        no_project: None,
        epic_id: None,
    }
    .execute(&service, today);
    assert_eq!(bad.unwrap_err().message(), "invalid scope, expected 'today', 'backlog', or YYYY-MM-DD");
}

#[test]
fn small_enums() {
    assert_eq!(WeekStart::Sunday.toggle(), WeekStart::Monday);
    assert_eq!(WeekStart::Monday.as_str(), "monday");
    assert_eq!(WeekStart::from_name("monday"), WeekStart::Monday);
    assert_eq!(WeekStart::from_name("friday"), WeekStart::Sunday);
    assert_eq!(ProjectStatus::Permanent.as_str(), "permanent");
    assert_eq!(DetailField::Title.next(), DetailField::Project);
    assert_eq!(DetailField::Notes.next(), DetailField::Notes);
    assert_eq!(DetailField::Title.prev(), DetailField::Title);
    assert_eq!(DetailField::Notes.prev(), DetailField::Status);
    assert_eq!(DetailField::Epic.label(), "Epic");
    assert!(!DetailField::Status.is_editable());
    assert!(DetailField::Notes.is_editable());
    assert_eq!(machich::settings::step_row(0, 3, Vertical::Up), 0);
    assert_eq!(machich::settings::step_row(2, 3, Vertical::Down), 2);
    assert_eq!(machich::settings::step_row(1, 3, Vertical::Down), 2);
    assert_eq!(Content::text("hi".into()), Content::Text { text: "hi".into() });
}
