use snow_core::row::{Cell, Row};
use snow_core::sla::{
    applicable_ids, is_task_sla_applicable_table, parent_not_found_status, parent_ref_from_record,
    parent_status, stage_label, status_from_task_slas, status_without_rows, summary_from_task_slas,
    task_sla_statuses, TaskSla, TaskSlaParentRef, TaskSlaReadability, TaskSlaRows, TaskSlaStage,
};
use snow_core::sla_rows::{agreement_query, agreements_by_task, read_stage, AgreementRow};

fn s(text: &str) -> String {
    text.to_string()
}

fn parent() -> TaskSlaParentRef {
    TaskSlaParentRef {
        record_number: s("INC0000001"),
        record_table: s("incident"),
        record_sys_id: s("parent-sys-1"),
    }
}

fn sla(
    name: &str,
    stage: TaskSlaStage,
    active: bool,
    breached: bool,
    planned_end_time: &str,
    millionths: i64,
) -> TaskSla {
    TaskSla {
        sla_name: Some(s(name)),
        stage: Some(stage),
        active: Some(active),
        has_breached: Some(breached),
        planned_end_time: Some(s(planned_end_time)),
        business_elapsed_millionths: Some(millionths),
        actual_time_left: Some(s("1970-01-01 04:00:00")),
    }
}

#[test]
fn task_sla_applicability_predicate_matches_first_slice_tables() {
    for table in [
        "task",
        "incident",
        "change_request",
        "change_task",
        "problem",
        "sc_request",
        "sc_req_item",
        "sc_task",
        "rm_story",
        "rm_scrum_task",
    ] {
        assert!(is_task_sla_applicable_table(table), "{table}");
    }

    for table in ["kb_knowledge", "pm_project", "dmn_demand"] {
        assert!(!is_task_sla_applicable_table(table), "{table}");
    }
}

#[test]
fn task_sla_status_maps_synthetic_rows_to_product_view() {
    let status = status_from_task_slas(
        parent(),
        &vec![
            sla(
                "Response SLA",
                TaskSlaStage::InProgress,
                true,
                false,
                "2026-05-08 10:00:00",
                80_000_000,
            ),
            sla(
                "Resolution SLA",
                TaskSlaStage::Completed,
                true,
                true,
                "2026-05-08 09:00:00",
                95_000_000,
            ),
        ],
    );

    assert_eq!(status.readable, TaskSlaReadability::ReadableRows);
    assert_eq!(status.rows.len(), 2);
    assert_eq!(status.rows[0].name.as_deref(), Some("Response SLA"));
    assert_eq!(status.rows[0].stage.as_deref(), Some("in_progress"));
    assert_eq!(status.rows[0].active, Some(true));
    assert_eq!(status.rows[0].breached, Some(false));
    assert_eq!(status.rows[0].business_elapsed_millionths, Some(80_000_000));
    assert_eq!(status.rows[0].time_left.as_deref(), Some("1970-01-01 04:00:00"));
    assert_eq!(status.summary.total, 2);
    assert_eq!(status.summary.active, 2);
    assert_eq!(status.summary.breached, 1);
    assert_eq!(status.summary.highest_business_elapsed_millionths, Some(95_000_000));
    assert_eq!(
        status.summary.next_breach.as_ref().and_then(|row| row.name.as_deref()),
        Some("Response SLA")
    );
}

#[test]
fn task_sla_status_readability_variants_are_distinct() {
    let empty = status_from_task_slas(parent(), &Vec::new());
    assert_eq!(empty.readable, TaskSlaReadability::EmptyOrAclRestricted);
    assert_eq!(empty.summary.total, 0);

    let not_applicable = status_without_rows(parent(), TaskSlaReadability::NotApplicable);
    assert_eq!(not_applicable.readable, TaskSlaReadability::NotApplicable);
    assert_eq!(not_applicable.record_sys_id, "parent-sys-1");

    let missing = parent_not_found_status("INC0000009");
    assert_eq!(missing.readable, TaskSlaReadability::ParentNotFound);
    assert_eq!(missing.record_number, "INC0000009");
    assert!(missing.record_table.is_empty());
    assert!(missing.record_sys_id.is_empty());
}

#[test]
fn the_next_breach_is_the_earliest_open_end() {
    let summary = summary_from_task_slas(&vec![
        sla("late", TaskSlaStage::InProgress, true, false, "2026-05-09 00:00:00", 1),
        sla("early", TaskSlaStage::Paused, true, false, "2026-05-08 00:00:00", 1),
        sla("over", TaskSlaStage::InProgress, true, true, "2026-05-01 00:00:00", 1),
    ]);
    assert_eq!(summary.next_breach.unwrap().name.as_deref(), Some("early"));
    assert_eq!(stage_label(&TaskSlaStage::Cancelled), "cancelled");
    assert_eq!(stage_label(&TaskSlaStage::Other(s("odd"))), "odd");
}

#[test]
fn statuses_follow_their_parents() {
    let other = TaskSlaParentRef {
        record_number: s("KB001"),
        record_table: s("kb_knowledge"),
        record_sys_id: s("kb-sys"),
    };
    assert_eq!(applicable_ids(&vec![parent(), other.clone()]), vec![s("parent-sys-1")]);
    let statuses = task_sla_statuses(
        &vec![other.clone(), parent()],
        &vec![TaskSlaRows {
            task_sys_id: s("parent-sys-1"),
            slas: vec![sla("r", TaskSlaStage::InProgress, true, false, "2026-05-08 00:00:00", 1)],
        }],
    );
    assert_eq!(statuses.len(), 2);
    assert_eq!(statuses[0].readable, TaskSlaReadability::NotApplicable);
    assert_eq!(statuses[1].readable, TaskSlaReadability::ReadableRows);
    assert_eq!(
        parent_status(other, &Vec::new()).readable,
        TaskSlaReadability::NotApplicable
    );
}

#[test]
fn parents_are_named_by_their_row() {
    let row = Row {
        table: s("Incident"),
        sys_id: s("inc-sys"),
        cells: vec![Cell {
            name: s("number"),
            raw: Some(s("INC0000001")),
            display: None,
            other: None,
        }],
    };
    let found = parent_ref_from_record(&row, "inc0000001");
    assert_eq!(found.record_number, "INC0000001");
    assert_eq!(found.record_sys_id, "inc-sys");
    let bare = Row { table: s("incident"), sys_id: s("x"), cells: Vec::new() };
    assert_eq!(parent_ref_from_record(&bare, "INC2").record_number, "INC2");
}

fn agreement(task: &str, name: &str, stage: &str, end: &str) -> AgreementRow {
    let cell = |field: &str, raw: &str, display: Option<&str>| Cell {
        name: s(field),
        raw: Some(s(raw)),
        display: display.map(s),
        other: None,
    };
    AgreementRow {
        row: Row {
            table: s("task_sla"),
            sys_id: s("sla-sys"),
            cells: vec![
                cell("task", task, Some("INC0000001")),
                cell("sla", "sla-def", Some(name)),
                cell("stage", stage, None),
                cell("active", "true", None),
                cell("has_breached", "false", None),
                cell("planned_end_time", end, None),
                cell("time_left", "", None),
            ],
        },
        business_elapsed_millionths: Some(12_500_000),
    }
}

#[test]
fn agreements_are_sorted_by_their_task() {
    let items = vec![
        agreement("task-1", "P1", "in_progress", "2026-05-20 10:00:00"),
        agreement("task-2", "P2", "on hold", ""),
        agreement("", "nobody's", "paused", ""),
        agreement("task-1", "P3", "cancelled", ""),
    ];
    let groups = agreements_by_task(&items);
    let found: Vec<(&str, usize)> = groups
        .iter()
        .map(|group| (group.task_sys_id.as_str(), group.slas.len()))
        .collect();
    assert_eq!(found, vec![("task-1", 2), ("task-2", 1)]);
    let first = &groups[0].slas[0];
    assert_eq!(first.sla_name.as_deref(), Some("P1"));
    assert_eq!(first.stage, Some(TaskSlaStage::InProgress));
    assert_eq!(first.active, Some(true));
    assert_eq!(first.has_breached, Some(false));
    assert_eq!(first.planned_end_time.as_deref(), Some("2026-05-20 10:00:00"));
    assert_eq!(first.business_elapsed_millionths, Some(12_500_000));
    assert_eq!(first.actual_time_left, None);
    assert_eq!(groups[0].slas[1].stage, Some(TaskSlaStage::Cancelled));
    assert_eq!(groups[0].slas[1].planned_end_time, None);
    assert_eq!(groups[1].slas[0].stage, Some(TaskSlaStage::Other(s("on hold"))));
}

#[test]
fn stages_keep_their_labels() {
    for label in ["in_progress", "paused", "completed", "cancelled", "", "Paused"] {
        assert_eq!(stage_label(&read_stage(label)), label);
    }
    assert_eq!(read_stage("paused"), TaskSlaStage::Paused);
    assert_eq!(read_stage("Paused"), TaskSlaStage::Other(s("Paused")));
}

#[test]
fn agreements_are_asked_for_by_task() {
    let q = agreement_query(&vec![s("a"), s("b")]);
    assert_eq!(q.table, "task_sla");
    assert_eq!(q.conditions.len(), 1);
    assert_eq!(q.conditions[0].field, "task");
    assert_eq!(q.conditions[0].value, "a,b");
    assert!(q.without_links);
}
