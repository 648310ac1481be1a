use driver::breadcrumbs;
use driver::breadcrumbs::{Archived, Breadcrumb, Breadcrumbs, CompletedDay, StoreAction};
use driver::json;
use driver::json::{Json, Members};
use driver::mcp::{error_result, text_result};

fn store() -> Breadcrumbs {
    Breadcrumbs::new("/state")
}

fn text_list(items: &[&str]) -> Json {
    json::string_array(&items.iter().map(|s| s.to_string()).collect())
}

fn args(pairs: &[(&str, &str)]) -> Json {
    let mut m = Members::new();
    for (k, v) in pairs {
        m = m.with(k, json::string(v));
    }
    m.object()
}

fn started() -> Breadcrumb {
    let given = Members::new()
        .with("name", json::string("Big Move!"))
        .with("steps", text_list(&["one", "two"]))
        .object();
    match store().start_at(&given, 17, "T0") {
        StoreAction::Save { breadcrumb, path, failure, reply } => {
            assert_eq!(path, "/state/breadcrumbs/active/bc_17_big_move.json");
            assert_eq!(failure, "failed to save breadcrumb: ");
            assert_eq!(
                reply,
                text_result(
                    "{\n  \"id\": \"bc_17_big_move\",\n  \"name\": \"Big Move!\",\n  \"project_id\": null,\n  \"status\": \"started\",\n  \"total_steps\": 2\n}"
                )
            );
            breadcrumb
        }
        other => panic!("{:?}", other),
    }
}

#[test]
fn a_started_record_has_done_nothing() {
    let bc = started();
    assert_eq!(bc.id, "bc_17_big_move");
    assert_eq!(bc.owner, "driver");
    assert_eq!(bc.current_step, 0);
    assert_eq!(bc.total_steps, 2);
    assert_eq!(bc.started_at, "T0");
    assert!(bc.step_results.is_empty());
    assert_eq!(
        store().start_at(&args(&[("name", "x")]), 1, "T"),
        StoreAction::Reply(error_result("steps[] is required and must not be empty"))
    );
    match store().start(&Members::new().with("steps", text_list(&["a"])).object()) {
        StoreAction::Save { breadcrumb, .. } => {
            assert!(breadcrumb.id.starts_with("bc_1"));
            assert!(breadcrumb.id.ends_with("_unnamed"));
            assert!(breadcrumb.started_at.contains('T'));
        }
        other => panic!("{:?}", other),
    }
}

#[test]
fn slugs_are_plain() {
    assert_eq!(Breadcrumbs::slugify("Héllo, World__", 40), "héllo__world");
    assert_eq!(Breadcrumbs::slugify("a-b_c", 3), "a-b");
    assert_eq!(Breadcrumbs::slugify("!!!", 40), "");
    assert_eq!(Breadcrumbs::slugify("ab c", 3), "ab");
    assert_eq!(Breadcrumbs::id_at(-5, "X"), "bc_-5_x");
    assert!(Breadcrumbs::new_id("X").starts_with("bc_1"));
}

#[test]
fn steps_are_counted() {
    let given = Members::new()
        .with("result", json::string("did it"))
        .with("files_changed", text_list(&["f", "g"]))
        .object();
    let mut bc = started();
    for (done, name) in [(1, "one"), (2, "two"), (3, "step_2")] {
        match store().step_at(&given, "bc_17_big_move", Some(bc.clone()), "T0", "T1") {
            StoreAction::Save { breadcrumb, failure, reply, .. } => {
                assert_eq!(failure, "failed to save: ");
                assert_eq!(
                    reply,
                    text_result(&format!(
                        "{{\n  \"id\": \"bc_17_big_move\",\n  \"progress\": \"{}/2\",\n  \"step_completed\": \"{}\"\n}}",
                        done, name
                    ))
                );
                bc = breadcrumb;
            }
            other => panic!("{:?}", other),
        }
    }
    assert_eq!(bc.current_step, 3);
    assert_eq!(bc.step_results.len(), 3);
    assert_eq!(bc.step_results[1].step_idx, 1);
    assert_eq!(bc.files_changed.len(), 6);
    assert_eq!(bc.last_activity_at, "T1");
    assert_eq!(
        store().step_at(&given, "zz", None, "T0", "T1"),
        StoreAction::Reply(error_result("breadcrumb 'zz' not found"))
    );
    assert!(matches!(store().step(&given, "bc_17_big_move", Some(started())), StoreAction::Save { .. }));
}

#[test]
fn a_completed_record_is_archived() {
    match store().complete_on(&args(&[]), "bc_17_big_move", Some(started()), "2024-05-06") {
        StoreAction::Archive { dir, dest, breadcrumb, failure, active_path, reply } => {
            assert_eq!(dir, "/state/breadcrumbs/completed/2024-05-06");
            assert_eq!(dest, "/state/breadcrumbs/completed/2024-05-06/bc_17_big_move.json");
            assert_eq!(active_path, "/state/breadcrumbs/active/bc_17_big_move.json");
            assert_eq!(failure, "archive write: ");
            assert_eq!(breadcrumb, started());
            assert!(reply.text_content().contains("\"summary\": \"completed\""));
            assert!(reply.text_content().contains("\"steps_completed\": 0"));
        }
        other => panic!("{:?}", other),
    }
    match store().complete(&args(&[]), "bc_17_big_move", Some(started())) {
        StoreAction::Archive { dir, .. } => assert_eq!(dir.len(), "/state/breadcrumbs/completed/".len() + 10),
        other => panic!("{:?}", other),
    }
    assert_eq!(
        store().complete(&args(&[]), "zz", None),
        StoreAction::Reply(error_result("breadcrumb 'zz' not found"))
    );
}

#[test]
fn an_aborted_record_says_why() {
    match store().abort_at(&args(&[("reason", "no time")]), "bc_17_big_move", Some(started()), "T2", "2024-05-06") {
        StoreAction::Archive { breadcrumb, reply, .. } => {
            assert!(breadcrumb.aborted);
            assert_eq!(breadcrumb.abort_reason, Some("no time".to_string()));
            assert_eq!(breadcrumb.last_activity_at, "T2");
            assert_eq!(breadcrumb.steps, started().steps);
            assert_eq!(
                reply,
                text_result(
                    "{\n  \"id\": \"bc_17_big_move\",\n  \"reason\": \"no time\",\n  \"status\": \"aborted\"\n}"
                )
            );
        }
        other => panic!("{:?}", other),
    }
    assert_eq!(
        store().abort(&args(&[]), "zz", None),
        StoreAction::Reply(error_result("breadcrumb 'zz' not found"))
    );
}

#[test]
fn the_one_active_record_is_meant() {
    let none: Vec<Breadcrumb> = vec![];
    assert_eq!(store().resolve_id(Some("x"), &none), Ok("x".to_string()));
    assert_eq!(store().resolve_id(None, &none), Err("no active breadcrumb".to_string()));
    assert_eq!(store().resolve_id(None, &vec![started()]), Ok("bc_17_big_move".to_string()));
    assert_eq!(
        store().resolve_id(None, &vec![started(), started()]),
        Err("ambiguous: 2 active breadcrumbs, provide breadcrumb_id".to_string())
    );
    assert_eq!(breadcrumbs::explicit_id(&args(&[("breadcrumb_id", "x")])), Some("x"));
    assert_eq!(breadcrumbs::explicit_id(&args(&[])), None);
}

#[test]
fn records_are_listed() {
    assert_eq!(store().status(&vec![]), text_result("no active breadcrumbs"));
    let status = store().status(&vec![started()]).text_content();
    assert!(status.contains("\"progress\": \"0/2\""));
    let mut aborted = started();
    aborted.aborted = true;
    aborted.id = "gone".to_string();
    let days = vec![
        CompletedDay { day: "2024-01-01".to_string(), breadcrumbs: vec![aborted] },
        CompletedDay { day: "2024-01-02".to_string(), breadcrumbs: vec![started()] },
    ];
    let today = store()
        .list_on(&args(&[("scope", "today")]), &vec![], &days, "2024-01-01")
        .text_content();
    assert!(today.contains("\"aborted\""));
    assert!(!today.contains("\"completed\""));
    let all = store().list_on(&args(&[("scope", "week")]), &vec![started()], &days, "2024-01-01");
    for word in ["\"active\"", "\"aborted\"", "\"completed\""] {
        assert!(all.text_content().contains(word));
    }
    assert_eq!(store().list(&args(&[]), &vec![], &days), text_result("no active breadcrumbs"));
    assert_eq!(
        store().list(&args(&[("scope", "never")]), &vec![], &days),
        error_result("unknown scope: never")
    );
}

#[test]
fn a_record_is_adopted() {
    let mut other = started();
    other.owner = "someone".to_string();
    match store().adopt_at(&args(&[("breadcrumb_id", "bc_17_big_move")]), Some(other), "T3") {
        StoreAction::Save { breadcrumb, reply, .. } => {
            assert_eq!(breadcrumb.owner, "driver");
            assert_eq!(breadcrumb.last_activity_at, "T3");
            assert_eq!(reply, text_result("breadcrumb 'bc_17_big_move' adopted by driver"));
        }
        other => panic!("{:?}", other),
    }
    assert_eq!(
        store().adopt(&args(&[]), None),
        StoreAction::Reply(error_result("breadcrumb_id is required"))
    );
    assert_eq!(
        store().adopt(&args(&[("breadcrumb_id", "x")]), None),
        StoreAction::Reply(error_result("breadcrumb 'x' not found"))
    );
}

#[test]
fn saving_can_fail() {
    assert_eq!(
        breadcrumbs::saved("failed to save: ", Err("full".to_string()), text_result("ok")),
        error_result("failed to save: full")
    );
    assert_eq!(breadcrumbs::saved("x", Ok(()), text_result("ok")), text_result("ok"));
}

#[test]
fn only_what_was_archived_leaves_the_active_ones() {
    assert_eq!(
        breadcrumbs::archived("archive write: ", "/a/x.json".to_string(), text_result("ok"), Ok(())),
        Archived::Remove { active_path: "/a/x.json".to_string(), reply: text_result("ok") }
    );
    assert_eq!(
        breadcrumbs::archived(
            "archive write: ",
            "/a/x.json".to_string(),
            text_result("ok"),
            Err("full".to_string())
        ),
        Archived::Fail("archive write: full".to_string())
    );
}
