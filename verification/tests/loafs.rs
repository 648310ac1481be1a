use driver::breadcrumbs::{archived, Archived};
use driver::json;
use driver::json::{Json, Members};
use driver::loafs;
use driver::loafs::{Loaf, LoafAction, Loafs};
use driver::mcp::{error_result, text_result};

fn store() -> Loafs {
    Loafs::new("/state")
}

fn args(pairs: &[(&str, &str)]) -> Json {
    let mut m = Members::new();
    for (k, v) in pairs {
        m = m.with(k, json::string(v));
    }
    m.object()
}

fn made() -> Loaf {
    let given = Members::new()
        .with("project_name", json::string("My Project (2)"))
        .with("goal", json::string("win"))
        .with("phases", json::string_array(&vec!["plan".to_string(), "do".to_string()]))
        .object();
    match store().create_at(&given, "T0") {
        LoafAction::Save { path, loaf, failure, reply } => {
            assert_eq!(path, "/state/loaves/My_Project_2_Loaf.json");
            assert_eq!(failure, "failed to save loaf: ");
            assert_eq!(
                reply,
                text_result(
                    "{\n  \"goal\": \"win\",\n  \"loaf_id\": \"My_Project_2_Loaf\",\n  \"phases\": 2,\n  \"status\": \"active\"\n}"
                )
            );
            loaf
        }
        other => panic!("{:?}", other),
    }
}

fn updated(loaf: Loaf, given: &Json) -> Loaf {
    match store().update_at(given, Some(loaf), "T1") {
        LoafAction::Save { loaf, failure, reply, .. } => {
            assert_eq!(failure, "save failed: ");
            assert_eq!(reply, text_result("loaf 'My_Project_2_Loaf' updated"));
            loaf
        }
        other => panic!("{:?}", other),
    }
}

#[test]
fn a_project_begins_with_its_first_phase() {
    let loaf = made();
    assert_eq!(loaf.status, "active");
    assert_eq!(loaf.current_phase, 0);
    assert_eq!(loaf.phases[0].status, "active");
    assert_eq!(loaf.phases[1].status, "pending");
    assert_eq!(loaf.breadcrumbs.len(), 1);
    assert_eq!(loaf.breadcrumbs[0].event, "Loaf created");
    match store().create(&args(&[("goal", "g")])) {
        LoafAction::Save { loaf, .. } => {
            assert_eq!(loaf.loaf_id, "unnamed_Loaf");
            assert_eq!(loaf.phases.len(), 1);
            assert_eq!(loaf.phases[0].name, "default");
            assert!(loaf.created.contains('T'));
        }
        other => panic!("{:?}", other),
    }
    assert_eq!(store().create(&args(&[])), LoafAction::Reply(error_result("goal is required")));
    assert_eq!(loafs::loaf_id("é-x_y z!"), "é-x_y_z_Loaf");
}

#[test]
fn updates_add_to_a_project() {
    let task = args(&[("task_id", "t1")]);
    let decision = args(&[("what", "use rust"), ("why", "speed")]);
    let discovery = args(&[("what", "bug"), ("impact", "big")]);
    let given = Members::new()
        .with("loaf_id", json::string("My_Project_2_Loaf"))
        .with("task_update", task.copy())
        .with("decision", decision)
        .with("discovery", discovery)
        .with("next_actions", json::string_array(&vec!["rest".to_string()]))
        .object();
    let loaf = updated(made(), &given);
    assert_eq!(loaf.phases[0].tasks, vec![task]);
    assert_eq!(loaf.decisions[0].what, "use rust");
    assert_eq!(loaf.decisions[0].why, Some("speed".to_string()));
    assert_eq!(loaf.decisions[0].who, None);
    assert_eq!(loaf.discoveries[0].impact, Some("big".to_string()));
    assert_eq!(loaf.next_actions, vec!["rest".to_string()]);
    let events: Vec<&str> = loaf.breadcrumbs.iter().map(|e| e.event.as_str()).collect();
    assert_eq!(
        events,
        vec![
            "Loaf created",
            "Task t1 -> done",
            "Decision: use rust",
            "Discovery: bug",
            "Next actions updated",
        ]
    );
}

#[test]
fn phases_follow_each_other() {
    let done = args(&[("loaf_id", "My_Project_2_Loaf"), ("phase_status", "done")]);
    let loaf = updated(made(), &done);
    assert_eq!(loaf.current_phase, 1);
    assert_eq!(loaf.phases[0].status, "done");
    assert_eq!(loaf.phases[1].status, "active");
    let loaf = updated(loaf, &done);
    assert_eq!(loaf.current_phase, 2);
    assert_eq!(loaf.phases[1].status, "done");
    let loaf = updated(loaf, &done);
    assert_eq!(loaf.current_phase, 3);
    assert_eq!(loaf.breadcrumbs[3].event, "Phase advanced to: 3");
    let other = updated(made(), &args(&[("loaf_id", "My_Project_2_Loaf"), ("phase_status", "half")]));
    assert_eq!(other.current_phase, 0);
}

#[test]
fn missing_projects_are_named() {
    assert_eq!(store().update(&args(&[]), None), LoafAction::Reply(error_result("loaf_id is required")));
    assert_eq!(
        store().update(&args(&[("loaf_id", "x")]), None),
        LoafAction::Reply(error_result("loaf 'x' not found"))
    );
    assert_eq!(store().close(&args(&[]), None), LoafAction::Reply(error_result("loaf_id is required")));
    assert_eq!(
        store().close(&args(&[("loaf_id", "x")]), None),
        LoafAction::Reply(error_result("loaf 'x' not found"))
    );
    assert_eq!(store().status(&args(&[("loaf_id", "x")]), &None), error_result("loaf 'x' not found"));
    assert_eq!(store().status(&args(&[]), &None), text_result("no active loaf"));
}

#[test]
fn the_state_of_a_project_is_told() {
    let said = store().status(&args(&[]), &Some(made())).text_content();
    assert!(said.contains("\"total_phases\": 2"));
    assert!(said.contains("\"total_tasks\": 0"));
    assert!(said.contains("\"event\": \"Loaf created\""));
}

#[test]
fn the_first_active_project_is_found() {
    let mut closed = made();
    closed.status = "completed".to_string();
    assert_eq!(store().find_active(vec![]), None);
    assert_eq!(store().find_active(vec![closed, made()]), Some(made()));
}

#[test]
fn a_closed_project_is_archived() {
    match store().close_at(&args(&[("loaf_id", "My_Project_2_Loaf")]), Some(made()), "T9") {
        LoafAction::Archive { dest, loaf, active_path, reply } => {
            assert_eq!(dest, "/state/loaves/archive/My_Project_2_Loaf.json");
            assert_eq!(active_path, "/state/loaves/My_Project_2_Loaf.json");
            assert_eq!(loaf.status, "completed");
            assert_eq!(loaf.breadcrumbs[1].event, "Loaf closed");
            assert_eq!(loaf.breadcrumbs[1].timestamp, "T9");
            assert_eq!(
                reply,
                text_result(
                    "{\n  \"archived_to\": \"/state/loaves/archive/My_Project_2_Loaf.json\",\n  \"loaf_id\": \"My_Project_2_Loaf\",\n  \"status\": \"completed\"\n}"
                )
            );
        }
        other => panic!("{:?}", other),
    }
}

#[test]
fn a_project_that_cannot_be_archived_stays() {
    match store().close_at(&args(&[("loaf_id", "My_Project_2_Loaf")]), Some(made()), "T9") {
        LoafAction::Archive { active_path, reply, .. } => assert_eq!(
            archived("", active_path, reply, Err("full".to_string())),
            Archived::Fail("full".to_string())
        ),
        other => panic!("{:?}", other),
    }
}
