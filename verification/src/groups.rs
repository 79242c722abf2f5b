//! The assignment groups that a user belongs to.
use vstd::prelude::*;
use vstd::seq_lib::{to_multiset_build, to_multiset_insert};
use vstd::string::*;

use crate::incident_queue::IncidentAssignmentGroup;
use crate::query::{DisplayMode, Query, QueryView};
use crate::row::{row_views, Row, RowView};
use crate::tables::{normalize_record_lookup_sys_id, sys_id_of};
use crate::text::{
    lemma_text_less_irreflexive, lemma_text_less_transitive, less_text, lower, lower_text, same,
    text_less, trim, trim_text,
};

verus! {

/// How many memberships are read at once, and how many pages of them.
pub const MEMBERSHIP_PAGE: usize = 500;

pub const MAX_MEMBERSHIP_PAGES: usize = 20;

pub open spec fn membership_query_of(user: Seq<char>) -> QueryView {
    QueryView::of("sys_user_grmember"@).equals("user"@, user).field("sys_id"@).field(
        "group"@,
    ).walk(seq!["group.name"@, "group.active"@]).display(
        DisplayMode::Both,
    ).no_links().no_count().limit(500)
}

pub fn membership_query(user: &str) -> (q: Query)
    ensures
        q@ == membership_query_of(user@),
{
    let mut walk: Vec<String> = Vec::new();
    walk.push("group.name".to_owned());
    walk.push("group.active".to_owned());
    assert(crate::text::texts(walk@) =~= seq!["group.name"@, "group.active"@]);
    Query::of("sys_user_grmember").equals("user", user).field("sys_id").field("group").walk(
        &walk,
    ).display(DisplayMode::Both).no_links().no_count().limit(500)
}

/// Whether another page of memberships is read.
#[derive(Clone, Copy, Debug, PartialEq, Eq, Structural)]
pub enum MembershipStep {
    Read,
    Stop,
    /// There are more memberships than may be read.
    TooMany,
}

pub fn membership_step(pages: usize, done: bool) -> (r: MembershipStep)
    ensures
        r == (if pages < MAX_MEMBERSHIP_PAGES {
            MembershipStep::Read
        } else if done {
            MembershipStep::Stop
        } else {
            MembershipStep::TooMany
        }),
{
    if pages < MAX_MEMBERSHIP_PAGES {
        MembershipStep::Read
    } else if done {
        MembershipStep::Stop
    } else {
        MembershipStep::TooMany
    }
}

pub struct GroupView {
    pub sys_id: Seq<char>,
    pub name: Seq<char>,
}

impl View for IncidentAssignmentGroup {
    type V = GroupView;

    open spec fn view(&self) -> GroupView {
        GroupView { sys_id: self.sys_id@, name: self.name@ }
    }
}

pub open spec fn group_views(v: Seq<IncidentAssignmentGroup>) -> Seq<GroupView> {
    v.map_values(|g: IncidentAssignmentGroup| g@)
}

/// A membership counts unless its group says that it is not active.
pub open spec fn group_inactive(row: RowView) -> bool {
    match row.shown("group.active"@) {
        Some(a) => trim(a) == "false"@ || trim(a) == "0"@,
        None => false,
    }
}

/// The group of a membership, if it counts and its sys_id is readable.
pub open spec fn group_of_row(row: RowView) -> Option<GroupView> {
    let raw = match row.raw("group"@) {
        Some(g) => Some(g),
        None => row.shown("group"@),
    };
    let named = match row.shown("group.name"@) {
        Some(n) => Some(n),
        None => row.display("group"@),
    };
    if group_inactive(row) || raw is None || sys_id_of(raw->0) is None {
        None
    } else {
        let id = sys_id_of(raw->0)->0;
        Some(
            GroupView {
                sys_id: id,
                name: match named {
                    Some(n) if trim(n).len() > 0 => trim(n),
                    _ => id,
                },
            },
        )
    }
}

pub fn read_group(row: &Row) -> (r: Option<IncidentAssignmentGroup>)
    ensures
        match r {
            Some(g) => group_of_row(row@) == Some(g@),
            None => group_of_row(row@) is None,
        },
{
    if let Some(active) = row.get_str("group.active") {
        let trimmed: String = trim_text(active);
        if same(trimmed.as_str(), "false") || same(trimmed.as_str(), "0") {
            return None;
        }
    }
    let raw: Option<&str> = match row.get_raw("group") {
        Some(g) => Some(g),
        None => row.get_str("group"),
    };
    let sys_id: String = match raw {
        Some(g) => match normalize_record_lookup_sys_id(g) {
            Ok(id) => id,
            Err(_) => return None,
        },
        None => return None,
    };
    let named: Option<&str> = match row.get_str("group.name") {
        Some(n) => Some(n),
        None => row.get_display("group"),
    };
    let name: String = match named {
        Some(n) => {
            let trimmed: String = trim_text(n);
            if trimmed.as_str().is_empty() {
                sys_id.clone()
            } else {
                trimmed
            }
        },
        None => sys_id.clone(),
    };
    Some(IncidentAssignmentGroup { sys_id, name })
}

pub open spec fn has_group(groups: Seq<GroupView>, id: Seq<char>) -> bool {
    exists|i: int| 0 <= i < groups.len() && (#[trigger] groups[i]).sys_id == id
}

/// The groups of some memberships, each once: of two memberships of one group
/// the first counts.
pub open spec fn groups_of(rows: Seq<RowView>) -> Seq<GroupView>
    decreases rows.len(),
{
    if rows.len() == 0 {
        Seq::empty()
    } else {
        let front = groups_of(rows.drop_last());
        match group_of_row(rows.last()) {
            Some(g) => if has_group(front, g.sys_id) {
                front
            } else {
                front.push(g)
            },
            None => front,
        }
    }
}

/// The order of groups: by name in any case, and by sys_id where the names agree.
pub open spec fn group_before(a: GroupView, b: GroupView) -> bool {
    text_less(lower(a.name), lower(b.name)) || (lower(a.name) == lower(b.name) && text_less(
        a.sys_id,
        b.sys_id,
    ))
}

pub open spec fn groups_in_order(groups: Seq<GroupView>) -> bool {
    forall|i: int, j: int|
        0 <= i < j < groups.len() ==> !group_before(#[trigger] groups[j], #[trigger] groups[i])
}

proof fn lemma_group_transitive(a: GroupView, b: GroupView, c: GroupView)
    requires
        group_before(a, b),
        group_before(b, c),
    ensures
        group_before(a, c),
{
    if text_less(lower(a.name), lower(b.name)) && text_less(lower(b.name), lower(c.name)) {
        lemma_text_less_transitive(lower(a.name), lower(b.name), lower(c.name));
    }
    if text_less(a.sys_id, b.sys_id) && text_less(b.sys_id, c.sys_id) {
        lemma_text_less_transitive(a.sys_id, b.sys_id, c.sys_id);
    }
}

proof fn lemma_group_irreflexive(a: GroupView)
    ensures
        !group_before(a, a),
{
    lemma_text_less_irreflexive(lower(a.name));
    lemma_text_less_irreflexive(a.sys_id);
}

fn comes_first(a: &IncidentAssignmentGroup, b: &IncidentAssignmentGroup) -> (r: bool)
    ensures
        r == group_before(a@, b@),
{
    let x: String = lower_text(a.name.as_str());
    let y: String = lower_text(b.name.as_str());
    less_text(x.as_str(), y.as_str()) || (x == y && less_text(a.sys_id.as_str(), b.sys_id.as_str()))
}

fn place_group(groups: &mut Vec<IncidentAssignmentGroup>, group: IncidentAssignmentGroup)
    requires
        groups_in_order(group_views(old(groups)@)),
    ensures
        groups_in_order(group_views(final(groups)@)),
        group_views(final(groups)@).to_multiset() == group_views(
            old(groups)@,
        ).to_multiset().insert(group@),
{
    let ghost before = group_views(groups@);
    let ghost item = group@;
    let mut at: usize = 0;
    while at < groups.len() && !comes_first(&group, &groups[at])
        invariant
            at <= groups@.len(),
            group_views(groups@) == before,
            item == group@,
            forall|i: int| 0 <= i < at ==> !group_before(item, #[trigger] before[i]),
        decreases groups@.len() - at,
    {
        assert(before[at as int] == groups@[at as int]@);
        at += 1;
    }
    if at < groups.len() {
        assert(before[at as int] == groups@[at as int]@);
    }
    groups.insert(at, group);
    proof {
        let after = group_views(groups@);
        assert(after =~= before.insert(at as int, item));
        to_multiset_insert(before, at as int, item);
        assert forall|i: int| at <= i < before.len() implies !group_before(
            #[trigger] before[i],
            item,
        ) by {
            if group_before(before[i], item) {
                lemma_group_transitive(before[i], item, before[at as int]);
                if i == at {
                    lemma_group_irreflexive(before[i]);
                }
            }
        }
        assert forall|i: int, j: int| 0 <= i < j < after.len() implies !group_before(
            #[trigger] after[j],
            #[trigger] after[i],
        ) by {
            if j < at {
                assert(after[i] == before[i] && after[j] == before[j]);
            } else if j == at {
                assert(after[i] == before[i]);
            } else {
                assert(after[j] == before[j - 1]);
                if i < at {
                    assert(after[i] == before[i]);
                } else if i > at {
                    assert(after[i] == before[i - 1]);
                }
            }
        }
    }
}

fn knows_group(groups: &Vec<IncidentAssignmentGroup>, id: &str) -> (r: bool)
    ensures
        r == has_group(group_views(groups@), id@),
{
    let mut i: usize = 0;
    while i < groups.len()
        invariant
            i <= groups@.len(),
            forall|j: int|
                0 <= j < i ==> (#[trigger] group_views(groups@)[j]).sys_id != id@,
        decreases groups@.len() - i,
    {
        assert(group_views(groups@)[i as int] == groups@[i as int]@);
        if same(groups[i].sys_id.as_str(), id) {
            return true;
        }
        i += 1;
    }
    false
}

proof fn lemma_group_carried(a: Seq<GroupView>, b: Seq<GroupView>, id: Seq<char>)
    requires
        a.to_multiset() == b.to_multiset(),
        has_group(a, id),
    ensures
        has_group(b, id),
{
    broadcast use vstd::seq_lib::group_to_multiset_ensures;

    let i = choose|i: int| 0 <= i < a.len() && (#[trigger] a[i]).sys_id == id;
    assert(a.contains(a[i]));
    assert(a.to_multiset().count(a[i]) > 0);
    assert(b.contains(a[i]));
    let k = choose|k: int| 0 <= k < b.len() && b[k] == a[i];
    assert(b[k].sys_id == id);
}

/// The groups of some memberships in their order.
pub fn incident_assignment_groups(rows: &Vec<Row>) -> (r: Vec<IncidentAssignmentGroup>)
    ensures
        groups_in_order(group_views(r@)),
        group_views(r@).to_multiset() == groups_of(row_views(rows@)).to_multiset(),
{
    let ghost all = row_views(rows@);
    let mut groups: Vec<IncidentAssignmentGroup> = Vec::new();
    let mut i: usize = 0;
    assert(group_views(groups@) =~= groups_of(all.subrange(0, 0)));
    while i < rows.len()
        invariant
            i <= rows@.len(),
            all == row_views(rows@),
            groups_in_order(group_views(groups@)),
            group_views(groups@).to_multiset() == groups_of(
                all.subrange(0, i as int),
            ).to_multiset(),
        decreases rows@.len() - i,
    {
        let ghost done = all.subrange(0, i as int);
        let ghost longer = all.subrange(0, i + 1);
        assert(longer.drop_last() =~= done);
        assert(longer.last() == rows@[i as int]@);
        if let Some(group) = read_group(&rows[i]) {
            proof {
                if has_group(group_views(groups@), group.sys_id@) {
                    lemma_group_carried(group_views(groups@), groups_of(done), group.sys_id@);
                }
                if has_group(groups_of(done), group.sys_id@) {
                    lemma_group_carried(groups_of(done), group_views(groups@), group.sys_id@);
                }
            }
            if !knows_group(&groups, group.sys_id.as_str()) {
                proof {
                    to_multiset_build(groups_of(done), group@);
                }
                place_group(&mut groups, group);
            }
        }
        i += 1;
    }
    assert(all.subrange(0, all.len() as int) =~= all);
    groups
}

/// No group is listed twice.
pub proof fn groups_are_distinct(rows: Seq<RowView>)
    ensures
        forall|i: int, j: int|
            0 <= i < j < groups_of(rows).len() ==> (#[trigger] groups_of(rows)[i]).sys_id != (
            #[trigger] groups_of(rows)[j]).sys_id,
    decreases rows.len(),
{
    if rows.len() > 0 {
        groups_are_distinct(rows.drop_last());
        let front = groups_of(rows.drop_last());
        let all = groups_of(rows);
        assert forall|i: int, j: int| 0 <= i < j < all.len() implies (#[trigger] all[i]).sys_id != (
        #[trigger] all[j]).sys_id by {
            assert(all[i] == front[i]);
            if j < front.len() {
                assert(all[j] == front[j]);
            } else {
                assert(!has_group(front, all[j].sys_id));
            }
        }
    }
}

} // verus!
