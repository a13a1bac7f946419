use q_body::a2a::types::{Artifact, Message, Part, TaskState};
use q_body::state::TaskStore;

fn msg(text: &str) -> Message {
    Message { role: "user".into(), parts: vec![Part::text(text)], message_id: None }
}

#[test]
fn test_sub_task_inherits_parent_skills() {
    let mut store = TaskStore::new();
    let parent_skills = vec!["journal".to_string(), "evolve".to_string()];
    store.create_task_with_skills("parent-1".into(), "ctx-parent".into(), msg("hi"), parent_skills.clone());
    let child = store
        .create_sub_task("parent-1", msg("sub"))
        .expect("sub-task should be created when parent exists");
    assert_eq!(child.skills, parent_skills, "子 task 须继承父 task 的 skills");
    assert_ne!(child.id, "parent-1");
    assert_eq!(child.status.state, TaskState::submitted);
}

#[test]
fn test_sub_task_missing_parent_returns_none() {
    let mut store = TaskStore::new();
    let child = store.create_sub_task("no-such-parent", msg("sub"));
    assert!(child.is_none(), "父 task 不存在时应返回 None");
}

#[test]
fn sub_task_id_and_context() {
    let mut store = TaskStore::new();
    store.create_task("p".into(), "ctx-p".into(), msg("hi"));
    let child = store.create_sub_task("p", msg("sub")).unwrap();
    assert_eq!(child.id.len(), 36);
    assert_eq!(child.context_id, Some(format!("ctx-{}", &child.id[..8])));
    assert!(store.get_task(&child.id).is_some());
}

#[test]
fn task_lifecycle() {
    let mut store = TaskStore::new();
    let t = store.create_task("t1".into(), "ctx-t1".into(), msg("question"));
    assert_eq!(t.status.state, TaskState::submitted);
    assert_eq!(t.history.as_ref().unwrap().len(), 1);
    store.update_status("t1", TaskState::working);
    assert_eq!(store.get_task("t1").unwrap().status.state, TaskState::working);

    let reply = Message { role: "assistant".into(), parts: vec![Part::text("answer")], message_id: Some("m1".into()) };
    let art = Artifact { parts: vec![Part::text("answer")], name: Some("response".into()), last_chunk: Some(true) };
    store.add_reply("t1", reply, vec![art]);
    let got = store.get_task("t1").unwrap();
    assert_eq!(got.status.state, TaskState::completed);
    assert_eq!(got.history.as_ref().unwrap().len(), 2);
    assert_eq!(got.artifacts.as_ref().unwrap().len(), 1);
}

#[test]
fn failing_a_task_sets_its_message() {
    let mut store = TaskStore::new();
    store.create_task("t2".into(), "ctx-t2".into(), msg("q"));
    store.fail_task("t2", "boom");
    let got = store.get_task("t2").unwrap();
    assert_eq!(got.status.state, TaskState::failed);
    let m = got.status.message.unwrap();
    assert_eq!(m.role, "agent");
    assert_eq!(m.parts[0].text.as_deref(), Some("boom"));
}

#[test]
fn updates_of_unknown_tasks_change_nothing() {
    let mut store = TaskStore::new();
    store.update_status("nope", TaskState::working);
    store.fail_task("nope", "x");
    assert!(store.get_task("nope").is_none());
}

#[test]
fn list_tasks_gives_every_task_in_id_order() {
    let mut store = TaskStore::new();
    assert!(store.list_tasks().is_empty());
    store.create_task("task-b".into(), "ctx-b".into(), msg("second"));
    store.create_task("task-a".into(), "ctx-a".into(), msg("first"));
    store.create_task("task-b".into(), "ctx-b2".into(), msg("again"));
    let ids: Vec<String> = store.list_tasks().into_iter().map(|t| t.id).collect();
    assert_eq!(ids, vec!["task-a".to_string(), "task-b".to_string()]);
}
