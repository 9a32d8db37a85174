use machich::{
    CalendarDate, ListOptions, ListScope, Model, MovePlacement, ProjectFilter, ReorderDirection,
    TodoError, TodoService, TodoStatus,
};

fn day(y: i32, m: u32, d: u32) -> CalendarDate {
    CalendarDate::from_ymd(y, m, d).unwrap()
}

fn opts(scope: ListScope, include_done: bool) -> ListOptions {
    ListOptions { scope, include_done, project: ProjectFilter::Any, epic_id: None }
}

fn titles(list: &[Model]) -> Vec<String> {
    list.iter().map(|m| m.title.clone()).collect()
}

fn add_at(service: &mut TodoService, title: &str, scheduled: Option<CalendarDate>) -> Model {
    service.add(title.to_string(), scheduled, None, None, None).unwrap()
}

#[test]
fn top_inserts_list_last_in_first() {
    let mut service = TodoService::new();
    let d = day(2024, 3, 1);
    let a = add_at(&mut service, "a", Some(d));
    let b = add_at(&mut service, "b", Some(d));
    let c = add_at(&mut service, "c", Some(d));
    assert_eq!((a.order_index, b.order_index, c.order_index), (0, -1, -2));
    assert_eq!(titles(&service.list(&opts(ListScope::Day(d), false))), vec!["c", "b", "a"]);
}

#[test]
fn bottom_moves_list_first_in_first() {
    let mut service = TodoService::new();
    let d = day(2024, 3, 1);
    let a = add_at(&mut service, "a", None);
    let b = add_at(&mut service, "b", None);
    let c = add_at(&mut service, "c", None);
    let ia = service.move_to_scope(a.id, ListScope::Day(d), MovePlacement::Bottom).unwrap().order_index;
    let ib = service.move_to_scope(b.id, ListScope::Day(d), MovePlacement::Bottom).unwrap().order_index;
    let ic = service.move_to_scope(c.id, ListScope::Day(d), MovePlacement::Bottom).unwrap().order_index;
    assert_eq!((ia, ib, ic), (0, 1, 2));
    assert_eq!(titles(&service.list(&opts(ListScope::Day(d), false))), vec!["a", "b", "c"]);
}

#[test]
fn pending_listed_before_done() {
    let mut service = TodoService::new();
    let d = day(2024, 3, 1);
    let a = add_at(&mut service, "a", Some(d));
    add_at(&mut service, "b", Some(d));
    let c = add_at(&mut service, "c", Some(d));
    service.mark_done(c.id, d).unwrap();
    service.mark_done(a.id, d).unwrap();
    add_at(&mut service, "e", Some(d));
    let all = service.list(&opts(ListScope::Day(d), true));
    assert_eq!(titles(&all), vec!["e", "b", "c", "a"]);
    let pending = service.list(&opts(ListScope::Day(d), false));
    assert_eq!(titles(&pending), vec!["e", "b"]);
}

#[test]
fn mark_done_takes_bottom_index_and_backlog_moves_to_today() {
    let mut service = TodoService::new();
    let today = day(2024, 5, 20);
    let x = add_at(&mut service, "x", None);
    add_at(&mut service, "y", Some(today));
    let done = service.mark_done(x.id, today).unwrap();
    assert_eq!(done.status, TodoStatus::Done);
    assert_eq!(done.scheduled_for, Some(today));
    assert_eq!(done.order_index, 1);
    let again = service.mark_done(x.id, today).unwrap();
    assert_eq!(again, done);
}

#[test]
fn rollover_moves_overdue_once() {
    let mut service = TodoService::new();
    let today = day(2024, 1, 10);
    let a = add_at(&mut service, "a", Some(day(2024, 1, 8)));
    let b = add_at(&mut service, "b", Some(day(2024, 1, 9)));
    let done = add_at(&mut service, "done", Some(day(2024, 1, 9)));
    service.mark_done(done.id, today).unwrap();
    add_at(&mut service, "later", Some(day(2024, 1, 11)));
    add_at(&mut service, "here", Some(today));
    assert_eq!(service.rollover_to(today), Ok(2));
    let moved_a = service.get(a.id).unwrap();
    let moved_b = service.get(b.id).unwrap();
    assert_eq!(moved_a.scheduled_for, Some(today));
    assert_eq!(moved_b.scheduled_for, Some(today));
    // Both had index 0 in their own days; a was added first and stays first.
    assert_eq!((moved_a.order_index, moved_b.order_index), (2, 3));
    assert_eq!(service.get(done.id).unwrap().scheduled_for, Some(day(2024, 1, 9)));
    assert_eq!(service.rollover_to(today), Ok(0));
    assert_eq!(titles(&service.list(&opts(ListScope::Day(today), false))), vec!["here", "a", "b"]);
}

#[test]
fn delete_of_missing_record_is_not_found() {
    let mut service = TodoService::new();
    assert_eq!(service.delete(42), Err(TodoError::NotFound(42)));
    assert!(service.records().is_empty());
}

#[test]
fn first_add_into_empty_store_succeeds() {
    let mut service = TodoService::new();
    let m = service.add("only".into(), None, None, Some("p".into()), None).unwrap();
    assert_eq!(m.order_index, 0);
    assert_eq!(service.records().len(), 1);
}

#[test]
fn rollover_with_nothing_overdue() {
    let mut service = TodoService::new();
    assert_eq!(service.rollover_to(day(2024, 1, 1)), Ok(0));
}

#[test]
fn delete_reports_exact_child_count() {
    let mut service = TodoService::new();
    let epic = add_at(&mut service, "epic", None);
    let c1 = service.add("c1".into(), None, None, None, Some(epic.id)).unwrap();
    let c2 = service.add("c2".into(), None, None, None, Some(epic.id)).unwrap();
    let err = service.delete(epic.id).unwrap_err();
    assert_eq!(err, TodoError::HasChildren(2));
    assert_eq!(err.message(), "cannot delete todo: it is an epic with 2 sub-todo(s)");
    service.delete(c1.id).unwrap();
    assert_eq!(service.delete(epic.id), Err(TodoError::HasChildren(1)));
    service.update_epic_id(c2.id, None).unwrap();
    assert_eq!(service.delete(epic.id), Ok(true));
    assert_eq!(service.delete(epic.id), Err(TodoError::NotFound(epic.id)));
    assert_eq!(service.get(epic.id), Err(TodoError::NotFound(epic.id)));
}

#[test]
fn epic_project_inherit_mismatch_and_match() {
    let mut service = TodoService::new();
    let epic = service.add("E".into(), None, None, Some("x".into()), None).unwrap();
    let inherited = service.add("a".into(), None, None, None, Some(epic.id)).unwrap();
    assert_eq!(inherited.project, Some("x".to_string()));
    let mismatch = service.add("b".into(), None, None, Some("other".into()), Some(epic.id));
    assert_eq!(mismatch, Err(TodoError::ProjectMismatch("other".into(), "x".into())));
    assert_eq!(
        mismatch.unwrap_err().message(),
        "project 'other' does not match epic's project 'x'"
    );
    let matching = service.add("c".into(), None, None, Some("x".into()), Some(epic.id)).unwrap();
    assert_eq!(matching.project, Some("x".to_string()));
    assert_eq!(service.records().len(), 3);
}

#[test]
fn self_reference_always_refused() {
    let mut service = TodoService::new();
    let t = add_at(&mut service, "t", None);
    assert_eq!(service.update_epic_id(t.id, Some(t.id)), Err(TodoError::SelfReference));
    assert_eq!(service.update_epic_id(7, Some(7)), Err(TodoError::SelfReference));
}

#[test]
fn done_then_pending_round_trip() {
    let mut service = TodoService::new();
    let d = day(2024, 2, 29);
    let other = add_at(&mut service, "other", Some(d));
    let t = service
        .add("t".into(), Some(d), Some("n".into()), Some("p".into()), None)
        .unwrap();
    assert_eq!((other.order_index, t.order_index), (0, -1));
    let done = service.mark_done(t.id, d).unwrap();
    assert_eq!(done.order_index, 1);
    let back = service.mark_pending(t.id).unwrap();
    assert_eq!(back.status, TodoStatus::Pending);
    assert_eq!(back.title, "t");
    assert_eq!(back.notes, Some("n".into()));
    assert_eq!(back.project, Some("p".into()));
    assert_eq!(back.order_index, -1);
    assert_eq!(service.mark_pending(t.id).unwrap(), back);
}

#[test]
fn reorder_up_swaps_and_reindexes() {
    let mut service = TodoService::new();
    let a = add_at(&mut service, "A", None);
    let b = add_at(&mut service, "B", None);
    let b = service.move_to_scope(b.id, ListScope::Backlog, MovePlacement::Bottom).unwrap();
    assert_eq!((a.order_index, b.order_index), (0, 1));
    service.reorder(b.id, ReorderDirection::Up).unwrap();
    let list = service.list(&opts(ListScope::Backlog, false));
    assert_eq!(titles(&list), vec!["B", "A"]);
    assert_eq!((list[0].order_index, list[1].order_index), (0, 1));
}

#[test]
fn reorder_at_boundary_changes_nothing() {
    let mut service = TodoService::new();
    let a = add_at(&mut service, "A", None);
    let before = service.records().clone();
    service.reorder(a.id, ReorderDirection::Up).unwrap();
    service.reorder(a.id, ReorderDirection::Down).unwrap();
    assert_eq!(service.records(), &before);
    assert_eq!(service.reorder(99, ReorderDirection::Up), Err(TodoError::NotFound(99)));
}

#[test]
fn same_day_top_insertion_lists_newest_first() {
    let mut service = TodoService::new();
    let d = day(2024, 1, 10);
    add_at(&mut service, "X", Some(d));
    add_at(&mut service, "Y", Some(d));
    assert_eq!(titles(&service.list(&ListOptions::today(d))), vec!["Y", "X"]);
}

#[test]
fn duplicate_identifier_is_refused() {
    let mut service = TodoService::new();
    service.add_with_id(5, "a".into(), None, None, None, None).unwrap();
    let r = service.add_with_id(5, "b".into(), None, None, None, None);
    assert!(matches!(r, Err(TodoError::Database(_))));
    assert_eq!(service.records().len(), 1);
}

#[test]
fn move_to_scope_top_and_bottom() {
    let mut service = TodoService::new();
    let d = day(2024, 6, 1);
    add_at(&mut service, "first", Some(d));
    add_at(&mut service, "second", Some(d));
    let x = add_at(&mut service, "x", None);
    let moved = service.move_to_scope(x.id, ListScope::Day(d), MovePlacement::Top).unwrap();
    assert_eq!(moved.order_index, -2);
    assert_eq!(moved.scheduled_for, Some(d));
    let moved = service.move_to_scope(x.id, ListScope::Backlog, MovePlacement::Bottom).unwrap();
    assert_eq!(moved.order_index, 0);
    assert_eq!(moved.scheduled_for, None);
}

#[test]
fn field_updates_and_missing_record() {
    let mut service = TodoService::new();
    let t = add_at(&mut service, "t", None);
    assert_eq!(service.update_title(t.id, "u".into()).unwrap().title, "u");
    assert_eq!(service.update_notes(t.id, Some("n".into())).unwrap().notes, Some("n".into()));
    assert_eq!(service.set_backlog_column(t.id, 2).unwrap().backlog_column, 2);
    let d = day(2025, 12, 31);
    assert_eq!(service.update_scheduled_for(t.id, Some(d)).unwrap().scheduled_for, Some(d));
    assert_eq!(service.update_project(t.id, Some("p".into())).unwrap().project, Some("p".into()));
    assert_eq!(service.update_title(1, "z".into()), Err(TodoError::NotFound(1)));
    assert_eq!(service.get_epic_title(1), Err(TodoError::NotFound(1)));
}

#[test]
fn error_classification() {
    assert!(TodoError::NotFound(1).is_client_error());
    assert!(TodoError::EpicNotFound(1).is_client_error());
    assert!(TodoError::InvalidUuid.is_client_error());
    assert!(TodoError::ProjectMismatch("a".into(), "b".into()).is_client_error());
    assert!(TodoError::SelfReference.is_client_error());
    assert!(!TodoError::HasChildren(1).is_client_error());
    assert!(!TodoError::Database("x".into()).is_client_error());
}

#[test]
fn error_messages_name_the_identifier() {
    let id = 0x67e5504410b1426f9247bb680e5fe0c8u128;
    assert_eq!(TodoError::NotFound(id).message(), "todo 67e55044-10b1-426f-9247-bb680e5fe0c8 not found");
    assert_eq!(TodoError::EpicNotFound(id).message(), "epic 67e55044-10b1-426f-9247-bb680e5fe0c8 not found");
    assert_eq!(TodoError::HasChildren(0).message(), "cannot delete todo: it is an epic with 0 sub-todo(s)");
    assert_eq!(TodoError::InvalidUuid.message(), "invalid UUID format");
    assert_eq!(TodoError::Database("boom".into()).message(), "database error: boom");
}

#[test]
fn calendar_dates() {
    assert!(CalendarDate::from_ymd(2024, 2, 29).is_some());
    assert!(CalendarDate::from_ymd(2023, 2, 29).is_none());
    assert!(CalendarDate::from_ymd(1900, 2, 29).is_none());
    assert!(CalendarDate::from_ymd(2000, 2, 29).is_some());
    assert!(CalendarDate::from_ymd(2024, 13, 1).is_none());
    assert!(CalendarDate::from_ymd(2024, 4, 31).is_none());
    assert!(CalendarDate::from_ymd(2024, 1, 0).is_none());
    assert!(day(2024, 1, 9).before(&day(2024, 1, 10)));
    assert!(day(2023, 12, 31).before(&day(2024, 1, 1)));
    assert!(!day(2024, 1, 10).before(&day(2024, 1, 10)));
}
