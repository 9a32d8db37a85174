use machich::{ListOptions, ListScope, ProjectFilter, TodoService};

fn add(service: &mut TodoService, title: &str, project: Option<&str>, epic: Option<u128>) -> machich::Model {
    service
        .add(title.to_string(), None, None, project.map(|p| p.to_string()), epic)
        .unwrap()
}

#[test]
fn add_inherits_project_from_epic() {
    let mut service = TodoService::new();
    let epic = add(&mut service, "epic: Auth", Some("myapp"), None);
    let child = add(&mut service, "Implement login", None, Some(epic.id));
    assert_eq!(child.project, Some("myapp".into()));
    assert_eq!(child.epic_id, Some(epic.id));
}

#[test]
fn add_rejects_project_mismatch() {
    let mut service = TodoService::new();
    let epic = add(&mut service, "epic: Auth", Some("myapp"), None);
    let result = service.add(
        "Wrong project".to_string(),
        None,
        None,
        Some("other".into()),
        Some(epic.id),
    );
    assert!(result.is_err());
    let err = result.unwrap_err().message();
    assert!(err.contains("does not match"));
}

#[test]
fn delete_blocked_for_epic_with_children() {
    let mut service = TodoService::new();
    let epic = add(&mut service, "epic: Feature", None, None);
    add(&mut service, "Sub-task", None, Some(epic.id));
    let result = service.delete(epic.id);
    assert!(result.is_err());
    let err = result.unwrap_err().message();
    assert!(err.contains("epic with"));
}

#[test]
fn delete_allowed_after_children_removed() {
    let mut service = TodoService::new();
    let epic = add(&mut service, "epic: Feature", None, None);
    let child = add(&mut service, "Sub-task", None, Some(epic.id));
    service.delete(child.id).unwrap();
    let result = service.delete(epic.id);
    assert!(result.is_ok());
}

#[test]
fn update_project_validates_against_epic() {
    let mut service = TodoService::new();
    let epic = add(&mut service, "epic: Auth", Some("myapp"), None);
    let child = add(&mut service, "Task", None, Some(epic.id));
    let result = service.update_project(child.id, Some("other".into()));
    assert!(result.is_err());
}

#[test]
fn list_filters_by_project() {
    let mut service = TodoService::new();
    add(&mut service, "Task A", Some("proj-a"), None);
    add(&mut service, "Task B", Some("proj-b"), None);
    add(&mut service, "Task C", None, None);
    let opts = ListOptions {
        scope: ListScope::Backlog,
        include_done: false,
        project: ProjectFilter::Equals("proj-a".into()),
        epic_id: None,
    };
    let results = service.list(&opts);
    assert_eq!(results.len(), 1);
    assert_eq!(results[0].title, "Task A");
}

#[test]
fn list_filters_null_project() {
    let mut service = TodoService::new();
    add(&mut service, "With project", Some("proj"), None);
    add(&mut service, "No project", None, None);
    let opts = ListOptions {
        scope: ListScope::Backlog,
        include_done: false,
        project: ProjectFilter::IsNull,
        epic_id: None,
    };
    let results = service.list(&opts);
    assert_eq!(results.len(), 1);
    assert_eq!(results[0].title, "No project");
}

#[test]
fn add_with_nonexistent_epic_id_fails() {
    let mut service = TodoService::new();
    let fake_id = uuid::Uuid::new_v4().as_u128();
    let result = service.add("Task".to_string(), None, None, None, Some(fake_id));
    assert!(result.is_err());
    assert!(result.unwrap_err().message().contains("not found"));
}

#[test]
fn update_epic_id_to_none_removes_link() {
    let mut service = TodoService::new();
    let epic = add(&mut service, "epic: Feature", Some("proj"), None);
    let child = add(&mut service, "Task", None, Some(epic.id));
    assert_eq!(child.epic_id, Some(epic.id));
    assert_eq!(child.project, Some("proj".into()));
    let updated = service.update_epic_id(child.id, None).unwrap();
    assert_eq!(updated.epic_id, None);
    assert_eq!(updated.project, Some("proj".into()));
}

#[test]
fn update_epic_id_to_valid_epic() {
    let mut service = TodoService::new();
    let epic1 = add(&mut service, "epic: A", Some("proj"), None);
    let epic2 = add(&mut service, "epic: B", Some("proj"), None);
    let task = add(&mut service, "Task", Some("proj"), Some(epic1.id));
    let updated = service.update_epic_id(task.id, Some(epic2.id)).unwrap();
    assert_eq!(updated.epic_id, Some(epic2.id));
}

#[test]
fn update_epic_id_with_nonexistent_epic_fails() {
    let mut service = TodoService::new();
    let task = add(&mut service, "Task", None, None);
    let fake_id = uuid::Uuid::new_v4().as_u128();
    let result = service.update_epic_id(task.id, Some(fake_id));
    assert!(result.is_err());
}

#[test]
fn get_epic_title_returns_title() {
    let mut service = TodoService::new();
    let epic = add(&mut service, "epic: My Feature", None, None);
    let title = service.get_epic_title(epic.id).unwrap();
    assert_eq!(title, "epic: My Feature");
}

#[test]
fn get_epic_titles_returns_batch() {
    let mut service = TodoService::new();
    let epic1 = add(&mut service, "epic: Auth", None, None);
    let epic2 = add(&mut service, "epic: Payments", None, None);
    let titles = service.get_epic_titles(&vec![epic1.id, epic2.id]);
    assert_eq!(titles.len(), 2);
    assert_eq!(titles.get(&epic1.id), Some(&"epic: Auth".to_string()));
    assert_eq!(titles.get(&epic2.id), Some(&"epic: Payments".to_string()));
}

#[test]
fn get_epic_titles_empty_input_returns_empty() {
    let service = TodoService::new();
    let titles = service.get_epic_titles(&vec![]);
    assert!(titles.is_empty());
}

#[test]
fn update_epic_id_rejects_self_reference() {
    let mut service = TodoService::new();
    let task = add(&mut service, "Task", None, None);
    let result = service.update_epic_id(task.id, Some(task.id));
    assert!(result.is_err());
    assert!(result.unwrap_err().message().contains("own epic"));
}
