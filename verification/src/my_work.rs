//! A user's own work: the lists that are read, what of them is kept, and which
//! records that are kept locally have dropped out.
use vstd::prelude::*;
use vstd::string::*;

use crate::order::{sort, sorted, Ranked};
use crate::query::{DisplayMode, Operator, Query, QueryView};
use crate::row::{row_views, Row};
use crate::text::{
    lemma_text_order, less_text, list_has, names_of, same, strings_of, text_less, text_of, texts,
};
use crate::types::{NamedField, SnowRecord};
use crate::work::{is_no, is_terminal, is_terminal_state, keep_open, open_rows, says_no};

verus! {

/// How many records of one list are read.
pub const USER_RECORD_HYDRATE_LIMIT: u32 = 200;

/// One list of a user's work: the records of a table whose field names the user.
pub struct WorkList {
    pub table: String,
    pub user_field: String,
    pub fields: Vec<String>,
    pub walk: Vec<String>,
    /// The class that the records must have, where the table holds others too.
    pub class: Option<String>,
}

pub struct WorkListView {
    pub table: Seq<char>,
    pub user_field: Seq<char>,
    pub fields: Seq<Seq<char>>,
    pub walk: Seq<Seq<char>>,
    pub class: Option<Seq<char>>,
}

impl View for WorkList {
    type V = WorkListView;

    open spec fn view(&self) -> WorkListView {
        WorkListView {
            table: self.table@,
            user_field: self.user_field@,
            fields: texts(self.fields@),
            walk: texts(self.walk@),
            class: text_of(self.class),
        }
    }
}

/// The query for a list. The records that are active are asked for first; where
/// that fails, all of them.
pub open spec fn work_query_of(list: WorkListView, user: Seq<char>, active_only: bool) -> QueryView {
    let q = QueryView::of(list.table).equals(list.user_field, user).fields(list.fields).display(
        DisplayMode::Both,
    ).descending("sys_updated_on"@).limit(USER_RECORD_HYDRATE_LIMIT).walk(list.walk).when_given(
        "sys_class_name"@,
        Operator::Equals,
        list.class,
    );
    if active_only {
        q.equals("active"@, "true"@)
    } else {
        q
    }
}

pub fn work_query(list: &WorkList, user: &str, active_only: bool) -> (q: Query)
    ensures
        q@ == work_query_of(list@, user@, active_only),
{
    let q: Query = Query::of(list.table.as_str()).equals(list.user_field.as_str(), user).fields(
        &list.fields,
    ).display(DisplayMode::Both).descending("sys_updated_on").limit(
        USER_RECORD_HYDRATE_LIMIT,
    ).walk(&list.walk).when_given("sys_class_name", Operator::Equals, &list.class);
    if active_only {
        q.equals("active", "true")
    } else {
        q
    }
}

/// What a list brought: the open records, and whether those are all there are.
pub struct HydratedRecords {
    pub rows: Vec<Row>,
    pub active_scope_complete: bool,
}

/// Reads the answer on a list. Only an answer about the active records that did
/// not reach the limit is known to be whole.
pub fn hydrated(rows: &Vec<Row>, active_only: bool, terminal: &Vec<String>) -> (r: HydratedRecords)
    ensures
        row_views(r.rows@) == row_views(rows@).filter(open_rows(texts(terminal@))),
        r.active_scope_complete == (active_only && rows@.len() < USER_RECORD_HYDRATE_LIMIT),
{
    HydratedRecords {
        rows: keep_open(rows, terminal),
        active_scope_complete: active_only && rows.len() < USER_RECORD_HYDRATE_LIMIT as usize,
    }
}

/// A field of a record says no if its value or its display value does.
pub open spec fn record_says_no(fields: Seq<NamedField>, name: Seq<char>) -> bool {
    exists|i: int|
        0 <= i < fields.len() && (#[trigger] fields[i]).name@ == name && (says_no(
            fields[i].field.value@,
        ) || (fields[i].field.display_value is Some && says_no(
            fields[i].field.display_value->0@,
        )))
}

/// A record that is kept locally is open work unless its state is terminal or it
/// says that it is not active.
pub fn record_is_open(record: &SnowRecord, terminal: &Vec<String>) -> (r: bool)
    ensures
        r == (!is_terminal(Some(record.state@), texts(terminal@)) && !record_says_no(
            record.fields@,
            "active"@,
        )),
{
    if is_terminal_state(Some(record.state.as_str()), terminal) {
        return false;
    }
    let mut i: usize = 0;
    while i < record.fields.len()
        invariant
            i <= record.fields@.len(),
            forall|k: int|
                0 <= k < i ==> (#[trigger] record.fields@[k]).name@ != "active"@ || !(says_no(
                    record.fields@[k].field.value@,
                ) || (record.fields@[k].field.display_value is Some && says_no(
                    record.fields@[k].field.display_value->0@,
                ))),
        decreases record.fields@.len() - i,
    {
        let named: &NamedField = &record.fields[i];
        if same(named.name.as_str(), "active") {
            let shown: bool = match &named.field.display_value {
                Some(v) => is_no(v.as_str()),
                None => false,
            };
            if shown || is_no(named.field.value.as_str()) {
                assert(record.fields@[i as int].name@ == "active"@);
                return false;
            }
        }
        i += 1;
    }
    true
}

/// Records rank by their number.
impl Ranked for SnowRecord {
    open spec fn before(self, other: SnowRecord) -> bool {
        text_less(self.number@, other.number@)
    }

    proof fn rank_laws(a: SnowRecord, b: SnowRecord, c: SnowRecord) {
        lemma_text_order(a.number@, b.number@, c.number@);
    }

    fn precedes(&self, other: &SnowRecord) -> (r: bool) {
        less_text(self.number.as_str(), other.number.as_str())
    }
}

/// The records in the order of their numbers.
pub fn sort_records_by_number(records: Vec<SnowRecord>) -> (r: Vec<SnowRecord>)
    ensures
        r@ == sorted(records@),
{
    sort(records)
}

/// A record that is kept locally.
pub struct KeptRecord {
    pub sys_id: String,
    pub open: bool,
}

/// Whether a record that is kept locally is still part of the user's work.
pub open spec fn stays(scope: Seq<Seq<char>>, scope_complete: bool) -> spec_fn(KeptRecord) -> bool {
    |r: KeptRecord| r.open && (scope_complete ==> scope.contains(r.sys_id@))
}

/// Sorts the records that are kept locally into those that stay and those that
/// have dropped out. A record that is missing from a scope that may be cut off has
/// not dropped out by that.
pub fn reconcile_work(records: Vec<KeptRecord>, scope: &Vec<String>, scope_complete: bool) -> (r: (
    Vec<KeptRecord>,
    Vec<KeptRecord>,
))
    ensures
        r.0@ == records@.filter(stays(texts(scope@), scope_complete)),
        r.1@ == records@.filter(|k: KeptRecord| !stays(texts(scope@), scope_complete)(k)),
{
    let ghost all = records@;
    let ghost keep = stays(texts(scope@), scope_complete);
    let ghost drop = |k: KeptRecord| !keep(k);
    let mut rest: Vec<KeptRecord> = records;
    let mut kept: Vec<KeptRecord> = Vec::new();
    let mut gone: Vec<KeptRecord> = Vec::new();
    let ghost mut done: int = 0;
    proof {
        crate::listing::lemma_filter_ends(all, keep);
        crate::listing::lemma_filter_ends(all, drop);
    }
    while rest.len() > 0
        invariant
            0 <= done <= all.len(),
            keep == stays(texts(scope@), scope_complete),
            forall|k: KeptRecord| #[trigger] drop(k) == !keep(k),
            rest@ == all.subrange(done, all.len() as int),
            kept@ == all.subrange(0, done).filter(keep),
            gone@ == all.subrange(0, done).filter(drop),
        decreases rest@.len(),
    {
        let record: KeptRecord = rest.remove(0);
        proof {
            assert(record == all[done]);
            crate::listing::lemma_filter_step(all, keep, done);
            crate::listing::lemma_filter_step(all, drop, done);
            assert(drop(record) == !keep(record));
            done = done + 1;
            assert(rest@ =~= all.subrange(done, all.len() as int));
        }
        if record.open && (!scope_complete || list_has(scope, record.sys_id.as_str())) {
            kept.push(record);
        } else {
            gone.push(record);
        }
    }
    proof {
        crate::listing::lemma_filter_ends(all, keep);
        crate::listing::lemma_filter_ends(all, drop);
        let stated = |k: KeptRecord| !stays(texts(scope@), scope_complete)(k);
        assert(drop =~= stated);
    }
    (kept, gone)
}

// --- the lists ---

pub const TASK_FIELDS: [&'static str; 14] = [
    "sys_id",
    "number",
    "short_description",
    "description",
    "state",
    "assigned_to",
    "assignment_group",
    "opened_at",
    "due_date",
    "parent",
    "sys_class_name",
    "sys_updated_on",
    "sys_mod_count",
    "work_notes",
];

pub const TASK_WALK: [&'static str; 2] = ["parent.number", "parent.sys_class_name"];

pub const CHANGE_TASK_FIELDS: [&'static str; 13] = [
    "sys_id",
    "number",
    "short_description",
    "description",
    "state",
    "assigned_to",
    "planned_start_date",
    "planned_start",
    "work_start",
    "expected_start",
    "start_date",
    "change_request",
    "work_notes",
];

pub const CHANGE_TASK_WALK: [&'static str; 2] = [
    "change_request.number",
    "change_request.sys_class_name",
];

pub const SCRUM_TASK_FIELDS: [&'static str; 9] = [
    "sys_id",
    "number",
    "short_description",
    "description",
    "state",
    "assigned_to",
    "due_date",
    "story",
    "work_notes",
];

pub const SCRUM_TASK_WALK: [&'static str; 2] = ["story.number", "story.sys_class_name"];

pub const STORY_FIELDS: [&'static str; 10] = [
    "sys_id",
    "number",
    "short_description",
    "description",
    "state",
    "assigned_to",
    "story_points",
    "sprint",
    "start_date",
    "work_notes",
];

pub const INCIDENT_FIELDS: [&'static str; 10] = [
    "sys_id",
    "number",
    "short_description",
    "description",
    "state",
    "priority",
    "opened_at",
    "assigned_to",
    "active",
    "work_notes",
];

pub const PROJECT_FIELDS: [&'static str; 11] = [
    "sys_id",
    "number",
    "name",
    "short_description",
    "description",
    "state",
    "project_manager",
    "start_date",
    "end_date",
    "percent_complete",
    "work_notes",
];

pub const DEMAND_FIELDS: [&'static str; 12] = [
    "sys_id",
    "number",
    "short_description",
    "description",
    "state",
    "priority",
    "requested_by",
    "demand_manager",
    "start_date",
    "end_date",
    "business_case",
    "work_notes",
];

fn work_list<const N: usize>(
    table: &str,
    user_field: &str,
    fields: &[&'static str; N],
    walk: Vec<String>,
    class: Option<String>,
) -> (r: WorkList)
    ensures
        r@ == (WorkListView {
            table: table@,
            user_field: user_field@,
            fields: names_of(fields@),
            walk: texts(walk@),
            class: text_of(class),
        }),
{
    WorkList {
        table: table.to_owned(),
        user_field: user_field.to_owned(),
        fields: strings_of(fields),
        walk,
        class,
    }
}

pub open spec fn plain_list(
    table: Seq<char>,
    user_field: Seq<char>,
    fields: Seq<Seq<char>>,
) -> WorkListView {
    WorkListView { table, user_field, fields, walk: Seq::empty(), class: None }
}

fn no_walk() -> (r: Vec<String>)
    ensures
        texts(r@) == Seq::<Seq<char>>::empty(),
{
    let r: Vec<String> = Vec::new();
    assert(texts(r@) =~= Seq::<Seq<char>>::empty());
    r
}

/// The lists that make up a user's tasks.
pub fn task_lists() -> (r: Vec<WorkList>)
    ensures
        r@.len() == 3,
        r@[0]@ == (WorkListView {
            table: "task"@,
            user_field: "assigned_to"@,
            fields: names_of(TASK_FIELDS@),
            walk: names_of(TASK_WALK@),
            class: Some("task"@),
        }),
        r@[1]@ == (WorkListView {
            table: "change_task"@,
            user_field: "assigned_to"@,
            fields: names_of(CHANGE_TASK_FIELDS@),
            walk: names_of(CHANGE_TASK_WALK@),
            class: None,
        }),
        r@[2]@ == (WorkListView {
            table: "rm_scrum_task"@,
            user_field: "assigned_to"@,
            fields: names_of(SCRUM_TASK_FIELDS@),
            walk: names_of(SCRUM_TASK_WALK@),
            class: None,
        }),
{
    let mut lists: Vec<WorkList> = Vec::new();
    lists.push(
        work_list(
            "task",
            "assigned_to",
            &TASK_FIELDS,
            strings_of(&TASK_WALK),
            Some("task".to_owned()),
        ),
    );
    lists.push(
        work_list(
            "change_task",
            "assigned_to",
            &CHANGE_TASK_FIELDS,
            strings_of(&CHANGE_TASK_WALK),
            None,
        ),
    );
    lists.push(
        work_list(
            "rm_scrum_task",
            "assigned_to",
            &SCRUM_TASK_FIELDS,
            strings_of(&SCRUM_TASK_WALK),
            None,
        ),
    );
    lists
}

/// The list of a user's stories.
pub fn story_list() -> (r: WorkList)
    ensures
        r@ == plain_list("rm_story"@, "assigned_to"@, names_of(STORY_FIELDS@)),
{
    work_list("rm_story", "assigned_to", &STORY_FIELDS, no_walk(), None)
}

/// The list of a user's incidents.
pub fn incident_list() -> (r: WorkList)
    ensures
        r@ == plain_list("incident"@, "assigned_to"@, names_of(INCIDENT_FIELDS@)),
{
    work_list("incident", "assigned_to", &INCIDENT_FIELDS, no_walk(), None)
}

/// The lists of a user's projects and demands.
pub fn project_lists() -> (r: Vec<WorkList>)
    ensures
        r@.len() == 2,
        r@[0]@ == plain_list("pm_project"@, "project_manager"@, names_of(PROJECT_FIELDS@)),
        r@[1]@ == plain_list("dmn_demand"@, "demand_manager"@, names_of(DEMAND_FIELDS@)),
{
    let mut lists: Vec<WorkList> = Vec::new();
    lists.push(work_list("pm_project", "project_manager", &PROJECT_FIELDS, no_walk(), None));
    lists.push(work_list("dmn_demand", "demand_manager", &DEMAND_FIELDS, no_walk(), None));
    lists
}

} // verus!
