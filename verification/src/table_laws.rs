//! Laws of table names, of the kinds of records, and of what a selector of a type stands
//! for.
use vstd::prelude::*;

use crate::listing::{ascending, first_failure};
use crate::query::QueryView;
use crate::record_types::{
    alias_from, blanked, catalog_query_of, catalog_row_failure, catalog_type, definition_of,
    definition_query_of, is_hidden, is_literal, is_plain, literal_of, looks_like_prefix,
    prefix_answer, prefix_query_of, prefix_row_failure, reference_query_of, reference_row_failure,
    type_from, type_of_table, TypeTables, COMPATIBILITY_TYPES,
};
use crate::record_error::RecordResolveError;
use crate::row::{Failure, PageView, RowView};
use crate::selection::{group_selection, lemma_or, meets, meets_last, selects, Held};
use crate::tables::{
    is_business_application_name, is_change_number, is_change_request_name, is_lookup_table,
    leading_letters, lookup_table, number_prefix, plan_parent_table, record_table,
    record_table_for_number, resource_type_of, server_table, table_name, ResourceType,
    BUSINESS_APPLICATION_TABLE, RECORD_LOOKUP_ALLOWED_TABLES, SERVER_TABLE,
};
use crate::text::{
    byte_len, has_prefix, has_text, is_control, is_identifier, is_letter, lower, names_of, texts,
    trim, upper,
};

verus! {

/// A list that is checked item by item fails by its first item that does; it passes where
/// no item fails.
pub proof fn the_first_failure_counts<T, E>(items: Seq<T>, check: spec_fn(T) -> Option<E>)
    ensures
        first_failure(items, check) is None <==> forall|i: int|
            0 <= i < items.len() ==> check(#[trigger] items[i]) is None,
        first_failure(items, check) is Some ==> exists|i: int|
            {
                &&& 0 <= i < items.len()
                &&& check(#[trigger] items[i]) == first_failure(items, check)
                &&& forall|k: int| 0 <= k < i ==> check(#[trigger] items[k]) is None
            },
    decreases items.len(),
{
    if items.len() > 0 && check(items[0]) is None {
        let rest = items.subrange(1, items.len() as int);
        the_first_failure_counts(rest, check);
        assert forall|i: int| 0 <= i < rest.len() implies #[trigger] rest[i] == items[i + 1] by {
        }
        if first_failure(rest, check) is Some {
            let i = choose|i: int|
                {
                    &&& 0 <= i < rest.len()
                    &&& check(#[trigger] rest[i]) == first_failure(rest, check)
                    &&& forall|k: int| 0 <= k < i ==> check(#[trigger] rest[k]) is None
                };
            assert(check(items[i + 1]) == first_failure(items, check));
            assert forall|k: int| 0 <= k < i + 1 implies check(#[trigger] items[k]) is None by {
                if k > 0 {
                    assert(check(rest[k - 1]) is None);
                }
            }
        } else {
            assert forall|k: int| 0 <= k < items.len() implies check(
                #[trigger] items[k],
            ) is None by {
                if k > 0 {
                    assert(check(rest[k - 1]) is None);
                }
            }
        }
    } else if items.len() > 0 {
        assert(check(items[0]) is Some);
    }
}

/// A list of texts ascends where each comes before every one behind it.
pub proof fn ascending_texts_come_in_order(list: Seq<Seq<char>>)
    ensures
        ascending(list) <==> forall|i: int, j: int|
            0 <= i < j < list.len() ==> crate::text::text_less(
                #[trigger] list[i],
                #[trigger] list[j],
            ),
{
}

/// The usual spelling of a table name is the name without the blanks around it, in small
/// letters and with underscores for the blanks and hyphens in it.
pub proof fn table_names_are_spelled_alike(s: Seq<char>, i: int)
    ensures
        table_name(s).len() == trim(s).len(),
        0 <= i < trim(s).len() ==> {
            let c = trim(s)[i];
            &&& c == ' ' || c == '-' ==> table_name(s)[i] == '_'
            &&& 'A' <= c <= 'Z' ==> table_name(s)[i] as u32 == c as u32 + 32
            &&& c != ' ' && c != '-' && !('A' <= c <= 'Z') ==> table_name(s)[i] == c
        },
{
    if 0 <= i < trim(s).len() {
        crate::text_laws::only_the_case_of_letters_changes(trim(s), i);
    }
}

/// The table under which records are kept: business applications, servers and changes are
/// known by several names, every other table by its own.
pub proof fn tables_are_known_by_several_names(table: Seq<char>)
    ensures
        ({
            let n = table_name(table);
            let business = n == "business_application"@ || n == "business_app"@ || n
                == "cmdb_ci_business_app"@;
            let server = n == "server"@ || n == "servers"@ || n == "cmdb_ci_server"@;
            let linux = n == "linux_server"@ || n == "cmdb_ci_linux_server"@;
            let windows = n == "windows_server"@ || n == "cmdb_ci_win_server"@;
            let change = n == "change"@ || n == "change_request"@ || n == "normal_change"@ || n
                == "standard_change"@ || n == "emergency_change"@ || has_prefix(
                n,
                "change_request_"@,
            );
            &&& business ==> record_table(table) == "cmdb_ci_business_app"@
            &&& !business && server ==> record_table(table) == "cmdb_ci_server"@
            &&& !business && !server && linux ==> record_table(table) == "cmdb_ci_linux_server"@
            &&& !business && !server && !linux && windows ==> record_table(table)
                == "cmdb_ci_win_server"@
            &&& !business && !server && !linux && !windows && change ==> record_table(table)
                == "change_request"@
            &&& !business && !server && !linux && !windows && !change ==> record_table(table) == n
            &&& server_table(n) is Some <==> server || linux || windows
            &&& is_change_request_name(n) <==> change
            &&& is_business_application_name(n) <==> business
        }),
        BUSINESS_APPLICATION_TABLE@ == "cmdb_ci_business_app"@,
        SERVER_TABLE@ == "cmdb_ci_server"@,
{
}

/// A number that begins with CHG settles that a record is a change, unless it is a business
/// application.
pub proof fn numbers_settle_changes(table: Seq<char>, number: Seq<char>)
    ensures
        is_change_number(number) <==> has_prefix(upper(trim(number)), "CHG"@),
        ({
            let n = table_name(table);
            let r = record_table_for_number(table, number);
            &&& is_business_application_name(n) ==> r == "cmdb_ci_business_app"@
            &&& !is_business_application_name(n) && (is_change_request_name(n) || is_change_number(
                number,
            )) ==> r == "change_request"@
            &&& !is_business_application_name(n) && !is_change_request_name(n) && !is_change_number(
                number,
            ) ==> r == n
        }),
{
}

/// The tables that a lookup may read.
pub proof fn lookups_read_a_few_tables(table: Seq<char>)
    ensures
        is_lookup_table(table) <==> {
            let t = lower(trim(table));
            ||| t == "dmn_demand"@
            ||| t == "dmn_demand_task"@
            ||| t == "resource_plan"@
            ||| t == "pm_project"@
            ||| t == "change_request"@
            ||| t == "business_application"@
            ||| t == "business_app"@
            ||| t == "cmdb_ci_business_app"@
            ||| t == "server"@
            ||| t == "servers"@
            ||| t == "cmdb_ci_server"@
            ||| t == "cmdb_ci_linux_server"@
            ||| t == "cmdb_ci_win_server"@
            ||| t == "vtb_task"@
        },
        ({
            let n = table_name(table);
            &&& lookup_table(table) is Some <==> is_business_application_name(n) || server_table(
                n,
            ) is Some || is_lookup_table(n)
            &&& is_business_application_name(n) ==> lookup_table(table) == Some(
                "cmdb_ci_business_app"@,
            )
            &&& !is_business_application_name(n) && server_table(n) is Some ==> lookup_table(table)
                == server_table(n)
            &&& !is_business_application_name(n) && server_table(n) is None && is_lookup_table(n)
                ==> lookup_table(table) == Some(n)
        }),
{
    let names = names_of(RECORD_LOOKUP_ALLOWED_TABLES@);
    assert(names.len() == 13);
    assert(names[0] == "dmn_demand"@);
    assert(names[1] == "dmn_demand_task"@);
    assert(names[2] == "resource_plan"@);
    assert(names[3] == "pm_project"@);
    assert(names[4] == "change_request"@);
    assert(names[5] == "business_application"@);
    assert(names[6] == "business_app"@);
    assert(names[7] == "cmdb_ci_business_app"@);
    assert(names[8] == "server"@);
    assert(names[9] == "cmdb_ci_server"@);
    assert(names[10] == "cmdb_ci_linux_server"@);
    assert(names[11] == "cmdb_ci_win_server"@);
    assert(names[12] == "vtb_task"@);
}

proof fn lemma_letters(s: Seq<char>)
    ensures
        leading_letters(s) <= s.len(),
        forall|i: int| 0 <= i < leading_letters(s) ==> is_letter(#[trigger] s[i]),
        leading_letters(s) < s.len() ==> !is_letter(s[leading_letters(s) as int]),
    decreases s.len(),
{
    if s.len() > 0 && is_letter(s[0]) {
        let rest = s.subrange(1, s.len() as int);
        lemma_letters(rest);
        assert forall|i: int| 0 <= i < leading_letters(s) implies is_letter(#[trigger] s[i]) by {
            if i > 0 {
                assert(is_letter(rest[i - 1]));
            }
        }
    }
}

/// The prefix of a number is all the letters that it begins with, in capitals.
pub proof fn prefixes_are_the_first_letters(number: Seq<char>)
    ensures
        ({
            let t = trim(number);
            &&& number_prefix(number) is None <==> t.len() == 0 || !is_letter(t[0])
            &&& number_prefix(number) is Some ==> {
                let p = number_prefix(number)->0;
                &&& 0 < p.len() <= t.len()
                &&& p == upper(t.subrange(0, p.len() as int))
                &&& forall|i: int| 0 <= i < p.len() ==> is_letter(#[trigger] t[i])
                &&& p.len() < t.len() ==> !is_letter(t[p.len() as int])
            }
        }),
{
    let t = trim(number);
    lemma_letters(t);
    let n = leading_letters(t) as int;
    assert(upper(t.subrange(0, n)).len() == n);
    if t.len() > 0 && is_letter(t[0]) {
        assert(n > 0);
    }
}

/// Plans belong to demands and to projects, by the prefix of the number.
pub proof fn demands_and_projects_have_plans(number: Seq<char>)
    ensures
        plan_parent_table(number) is Some <==> number_prefix(number) == Some("DMND"@)
            || number_prefix(number) == Some("PRJ"@),
        number_prefix(number) == Some("DMND"@) ==> plan_parent_table(number) == Some(
            "dmn_demand"@,
        ),
        number_prefix(number) == Some("PRJ"@) ==> plan_parent_table(number) == Some("pm_project"@),
{
    reveal_strlit("DMND");
    reveal_strlit("PRJ");
    assert("DMND"@[0] == 'D');
    assert("PRJ"@[0] == 'P');
}

/// The kind of record that a table holds.
pub proof fn tables_hold_their_kind(table: Seq<char>)
    ensures
        ({
            let n = table_name(table);
            let r = resource_type_of(table);
            let special = is_business_application_name(n) || server_table(n) is Some
                || is_change_request_name(n);
            &&& is_business_application_name(n) ==> r == ResourceType::BusinessApplication
            &&& !is_business_application_name(n) && server_table(n) is Some ==> r
                == ResourceType::Server
            &&& !is_business_application_name(n) && server_table(n) is None
                && is_change_request_name(n) ==> r == ResourceType::Change
            &&& !special ==> {
                &&& r == ResourceType::Incident <==> n == "incident"@
                &&& n == "change_task"@ && n != "incident"@ ==> r == ResourceType::ChangeTask
                &&& r == ResourceType::ChangeTask ==> n == "change_task"@
                &&& r == ResourceType::Task ==> n == "task"@
                &&& r == ResourceType::ScrumTask ==> n == "rm_scrum_task"@
                &&& r == ResourceType::Story ==> n == "rm_story"@
                &&& r == ResourceType::Project ==> n == "pm_project"@
                &&& r == ResourceType::Demand ==> n == "dmn_demand"@
                &&& r == ResourceType::DemandTask ==> n == "dmn_demand_task"@
                &&& r == ResourceType::ResourcePlan ==> n == "resource_plan"@
                &&& r == ResourceType::Knowledge ==> n == "kb_knowledge"@
                &&& r == ResourceType::Unknown <==> !(n == "incident"@ || n == "change_task"@ || n
                    == "task"@ || n == "rm_scrum_task"@ || n == "rm_story"@ || n == "pm_project"@
                    || n == "dmn_demand"@ || n == "dmn_demand_task"@ || n == "resource_plan"@ || n
                    == "kb_knowledge"@)
                &&& r != ResourceType::BusinessApplication && r != ResourceType::Server && r
                    != ResourceType::Change
            }
        }),
{
}

proof fn lemma_type(table: Seq<char>, from: int)
    requires
        0 <= from,
    ensures
        (forall|i: int| from <= i < 17 ==> (#[trigger] COMPATIBILITY_TYPES@[i]).0@ != table)
            ==> type_from(table, from) == table,
        forall|i: int|
            from <= i < 17 && (#[trigger] COMPATIBILITY_TYPES@[i]).0@ == table && (forall|k: int|
                from <= k < i ==> (#[trigger] COMPATIBILITY_TYPES@[k]).0@ != table) ==> type_from(
                table,
                from,
            ) == COMPATIBILITY_TYPES@[i].1@,
    decreases 17 - from,
{
    if from < 17 {
        lemma_type(table, from + 1);
    }
}

proof fn lemma_alias(kind: Seq<char>, from: int)
    requires
        0 <= from,
    ensures
        (forall|i: int| from <= i < 17 ==> (#[trigger] COMPATIBILITY_TYPES@[i]).1@ != kind)
            ==> alias_from(kind, from) is None,
        forall|i: int|
            from <= i < 17 && (#[trigger] COMPATIBILITY_TYPES@[i]).1@ == kind && (forall|k: int|
                from <= k < i ==> (#[trigger] COMPATIBILITY_TYPES@[k]).1@ != kind) ==> alias_from(
                kind,
                from,
            ) == Some(COMPATIBILITY_TYPES@[i].0@),
    decreases 17 - from,
{
    if from < 17 {
        lemma_alias(kind, from + 1);
    }
}

/// A table is known by the name that the list pairs it with, and a table that is not in the
/// list by its own; the other way round, a name stands for the table that it is paired with.
pub proof fn tables_are_known_by_their_pairs(name: Seq<char>)
    ensures
        (forall|i: int| 0 <= i < 17 ==> (#[trigger] COMPATIBILITY_TYPES@[i]).0@ != name)
            ==> type_of_table(name) == name,
        forall|i: int|
            0 <= i < 17 && (#[trigger] COMPATIBILITY_TYPES@[i]).0@ == name && (forall|k: int|
                0 <= k < i ==> (#[trigger] COMPATIBILITY_TYPES@[k]).0@ != name) ==> type_of_table(
                name,
            ) == COMPATIBILITY_TYPES@[i].1@,
        (forall|i: int| 0 <= i < 17 ==> (#[trigger] COMPATIBILITY_TYPES@[i]).1@ != name)
            ==> alias_from(name, 0) is None,
        forall|i: int|
            0 <= i < 17 && (#[trigger] COMPATIBILITY_TYPES@[i]).1@ == name && (forall|k: int|
                0 <= k < i ==> (#[trigger] COMPATIBILITY_TYPES@[k]).1@ != name) ==> alias_from(
                name,
                0,
            ) == Some(COMPATIBILITY_TYPES@[i].0@),
{
    lemma_type(name, 0);
    lemma_alias(name, 0);
}

/// The pairs of tables and the names that they are known by.
pub proof fn tables_are_paired_with_names()
    ensures
        COMPATIBILITY_TYPES@.len() == 17,
        ({
            let p = COMPATIBILITY_TYPES@;
            &&& p[0].0@ == "rm_story"@ && p[0].1@ == "story"@
            &&& p[1].0@ == "rm_sprint"@ && p[1].1@ == "sprint"@
            &&& p[2].0@ == "rm_release_scrum"@ && p[2].1@ == "release"@
            &&& p[3].0@ == "sys_user_group"@ && p[3].1@ == "assignment_group"@
            &&& p[4].0@ == "rm_scrum_task"@ && p[4].1@ == "story_task"@
            &&& p[5].0@ == "sc_request"@ && p[5].1@ == "request"@
            &&& p[6].0@ == "sc_req_item"@ && p[6].1@ == "request_item"@
            &&& p[7].0@ == "sc_task"@ && p[7].1@ == "request_task"@
            &&& p[8].0@ == "pm_project"@ && p[8].1@ == "project"@
            &&& p[9].0@ == "pm_project_task"@ && p[9].1@ == "project_task"@
            &&& p[10].0@ == "dmn_demand"@ && p[10].1@ == "demand"@
            &&& p[11].0@ == "dmn_demand_task"@ && p[11].1@ == "demand_task"@
            &&& p[12].0@ == "time_card"@ && p[12].1@ == "timecard"@
            &&& p[13].0@ == "sys_user"@ && p[13].1@ == "user"@
            &&& p[14].0@ == "sysapproval_approver"@ && p[14].1@ == "approval"@
            &&& p[15].0@ == "kb_knowledge"@ && p[15].1@ == "knowledge_article"@
            &&& p[16].0@ == "cmdb_ci_business_app"@ && p[16].1@ == "business_application"@
        }),
{
}

/// A text is a literal where it is not empty, not too long, holds neither a control
/// character nor a caret, and none of the notations that a query would interpret.
pub proof fn literals_stand_for_themselves(s: Seq<char>, max: nat)
    ensures
        is_literal(s, max) <==> {
            &&& s.len() > 0
            &&& byte_len(s) <= max
            &&& forall|i: int| 0 <= i < s.len() ==> !is_control(#[trigger] s[i]) && s[i] != '^'
            &&& !has_text(s, "${"@)
            &&& !has_text(lower(s), "javascript:"@)
        },
        literal_of(s) is Ok <==> is_literal(trim(s), 160),
        literal_of(s) is Ok ==> literal_of(s)->Ok_0 == trim(s),
{
    let p = |c: char| !is_control(c) && c != '^';
    if is_plain(s) {
        assert forall|i: int| 0 <= i < s.len() implies !is_control(#[trigger] s[i]) && s[i]
            != '^' by {
            assert(p(s[i]));
        }
    }
}

/// The definition of a table is asked for by its name, its prefix entry by the prefix; two
/// and twenty-one rows are enough to see that there are too many.
pub proof fn definitions_are_asked_for_by_name(table: Seq<char>, prefix: Seq<char>, held: Held)
    ensures
        selects(definition_query_of(table), held) <==> held("name"@) == table,
        definition_query_of(table).table == "sys_db_object"@,
        definition_query_of(table).fields == seq!["name"@, "label"@],
        definition_query_of(table).limit == Some(2u32),
        selects(prefix_query_of(prefix), held) <==> held("prefix"@) == prefix,
        prefix_query_of(prefix).table == "sys_number"@,
        prefix_query_of(prefix).fields == seq!["prefix"@, "category"@],
        prefix_query_of(prefix).limit == Some(21u32),
{
    broadcast use group_selection;

    assert(definition_query_of(table).fields =~= seq!["name"@, "label"@]);
    assert(prefix_query_of(prefix).fields =~= seq!["prefix"@, "category"@]);
}

/// A selector is asked for in the catalog as a table name, as a label and as the name that a
/// table is known by; in the dictionary as the name of a field and as its label.
pub proof fn selectors_are_read_every_way(sel: Seq<char>, held: Held)
    ensures
        selects(catalog_query_of(sel), held) <==> {
            ||| held("name"@) == lower(sel)
            ||| held("label"@) == blanked(sel)
            ||| alias_from(lower(sel), 0) == Some(held("name"@))
        },
        catalog_query_of(sel).table == "sys_db_object"@,
        catalog_query_of(sel).limit == Some(21u32),
        selects(reference_query_of(sel), held) <==> held("element"@) == lower(sel) || held(
            "column_label"@,
        ) == blanked(sel),
        reference_query_of(sel).table == "sys_dictionary"@,
        reference_query_of(sel).limit == Some(101u32),
{
    broadcast use group_selection;

    let base = QueryView::of("sys_db_object"@).field("name"@).field("label"@);
    let one = base.equals("name"@, lower(sel));
    let two = one.or_equals("label"@, blanked(sel));
    assert(base.conditions.len() == 0);
    assert(one.conditions.drop_last() =~= base.conditions);
    assert(two.conditions.drop_last() =~= one.conditions);
    lemma_or(one.conditions, two.conditions.last(), held);
    assert(crate::selection::earlier(one.conditions) =~= base.conditions);
    assert(meets(one.conditions.last(), held) <==> held("name"@) == lower(sel));
    assert(meets(two.conditions.last(), held) <==> held("label"@) == blanked(sel));
    assert(meets_last(one.conditions, held) <==> held("name"@) == lower(sel));
    assert(meets_last(two.conditions, held) <==> held("name"@) == lower(sel) || held("label"@)
        == blanked(sel));
    let limited = two.limit(21).no_count();
    assert(limited.conditions == two.conditions);
    match alias_from(lower(sel), 0) {
        Some(alias) => {
            let three = limited.or_equals("name"@, alias);
            assert(three.conditions.drop_last() =~= two.conditions);
            lemma_or(two.conditions, three.conditions.last(), held);
            assert(crate::selection::earlier(two.conditions) == crate::selection::earlier(
                one.conditions,
            ));
            assert(meets(three.conditions.last(), held) <==> held("name"@) == alias);
        },
        None => {},
    }
    let rbase = QueryView::of("sys_dictionary"@).field("element"@).field("column_label"@).field(
        "reference"@,
    );
    let rone = rbase.equals("element"@, lower(sel));
    let rtwo = rone.or_equals("column_label"@, blanked(sel));
    assert(rbase.conditions.len() == 0);
    assert(rone.conditions.drop_last() =~= rbase.conditions);
    lemma_or(rone.conditions, rtwo.conditions.last(), held);
    assert(crate::selection::earlier(rone.conditions) =~= rbase.conditions);
    assert(meets(rone.conditions.last(), held) <==> held("element"@) == lower(sel));
    assert(meets(rtwo.conditions.last(), held) <==> held("column_label"@) == blanked(sel));
    assert(meets_last(rone.conditions, held) <==> held("element"@) == lower(sel));
    assert(reference_query_of(sel).conditions == rtwo.conditions);
}

/// A label is the selector with blanks for its underscores, and nothing else changed.
pub proof fn labels_have_blanks_for_underscores(s: Seq<char>, i: int)
    ensures
        blanked(s).len() == s.len(),
        0 <= i < s.len() && s[i] == '_' ==> blanked(s)[i] == ' ',
        0 <= i < s.len() && s[i] != '_' ==> blanked(s)[i] == s[i],
{
}

/// A table is defined where its name is an identifier and the catalog has exactly one entry
/// of that name, with a label.
pub proof fn tables_are_defined_by_one_entry(
    table: Seq<char>,
    source: Seq<char>,
    reply: Result<PageView, Failure>,
)
    ensures
        ({
            let r = definition_of(table, source, reply);
            &&& r is Ok <==> {
                &&& is_identifier(table)
                &&& reply is Ok
                &&& !reply->Ok_0.partial
                &&& reply->Ok_0.rows.len() == 1
                &&& reply->Ok_0.rows[0].raw("name"@) == Some(table)
                &&& reply->Ok_0.rows[0].raw("label"@) is Some
                &&& reply->Ok_0.rows[0].raw("label"@)->0.len() > 0
            }
            &&& r is Ok ==> r->Ok_0.table == table && Some(r->Ok_0.label)
                == reply->Ok_0.rows[0].raw("label"@) && r->Ok_0.resource_type == type_of_table(
                table,
            ) && r->Ok_0.source == source
        }),
{
}

/// Prefix metadata is hidden where the provider forbids it or has none.
pub proof fn hidden_prefixes_are_forbidden_or_absent(failure: Failure)
    ensures
        is_hidden(failure) <==> match failure {
            Failure::Auth(status) => status == Some(403u16),
            Failure::Api(status) => status == 403 || status == 404,
            _ => false,
        },
{
}

/// An entry of the prefix metadata is accepted where it is of the prefix, in any case, and
/// names a table.
pub proof fn prefix_entries_name_their_table(row: RowView, prefix: Seq<char>)
    ensures
        prefix_row_failure(row, prefix) is None <==> {
            &&& row.raw("prefix"@) is Some
            &&& lower(row.raw("prefix"@)->0) == lower(prefix)
            &&& row.raw("category"@) is Some
            &&& is_identifier(row.raw("category"@)->0)
        },
{
    if row.raw("prefix"@) is Some {
        crate::text_laws::case_does_not_count(row.raw("prefix"@)->0, prefix);
    }
}

/// A prefix leads to the tables that readable metadata names; where there are none, or the
/// metadata is hidden, to the configured table.
pub proof fn prefixes_lead_to_their_tables(
    prefix: Seq<char>,
    reply: Result<PageView, Failure>,
    configured: Option<Seq<char>>,
    r: Result<TypeTables, RecordResolveError>,
    t: Seq<char>,
)
    requires
        prefix_answer(prefix, reply, configured, r),
    ensures
        reply is Err && is_hidden(reply->Err_0) ==> (r is Ok <==> configured is Some),
        reply is Err && is_hidden(reply->Err_0) && configured is Some ==> texts(
            r->Ok_0.tables@,
        ) == seq![configured->0],
        reply is Err && !is_hidden(reply->Err_0) ==> r is Err,
        reply is Ok ==> (r is Ok <==> !reply->Ok_0.partial && reply->Ok_0.rows.len() <= 20 && (
        forall|i: int|
            0 <= i < reply->Ok_0.rows.len() ==> prefix_row_failure(
                #[trigger] reply->Ok_0.rows[i],
                prefix,
            ) is None)),
        reply is Ok && r is Ok && reply->Ok_0.rows.len() > 0 ==> (texts(r->Ok_0.tables@).contains(t)
            <==> exists|i: int|
            0 <= i < reply->Ok_0.rows.len() && (#[trigger] reply->Ok_0.rows[i]).raw("category"@)
                == Some(t)),
        reply is Ok && r is Ok && reply->Ok_0.rows.len() == 0 && configured is Some ==> texts(
            r->Ok_0.tables@,
        ) == seq![configured->0],
        reply is Ok && r is Ok && reply->Ok_0.rows.len() == 0 && configured is None ==> !texts(
            r->Ok_0.tables@,
        ).contains(t),
{
    if reply is Ok {
        let rows = reply->Ok_0.rows;
        let check = crate::record_types::prefix_check(prefix);
        the_first_failure_counts(rows, check);
        if first_failure(rows, check) is Some {
            let i = choose|i: int|
                {
                    &&& 0 <= i < rows.len()
                    &&& check(#[trigger] rows[i]) == first_failure(rows, check)
                    &&& forall|k: int| 0 <= k < i ==> check(#[trigger] rows[k]) is None
                };
            assert(prefix_row_failure(rows[i], prefix) is Some);
        } else {
            assert forall|i: int| 0 <= i < rows.len() implies prefix_row_failure(
                #[trigger] rows[i],
                prefix,
            ) is None by {
                assert(check(rows[i]) is None);
            }
        }
    }
}

/// A row of the catalog is accepted for a selector where it names a table with a label, and
/// its name or its label is what was asked for; a row of the dictionary where the field is,
/// and what it refers to is a table.
pub proof fn metadata_rows_belong_to_the_selector(row: RowView, sel: Seq<char>)
    ensures
        catalog_row_failure(row, sel) is None <==> {
            let name = row.raw("name"@);
            let label = row.raw("label"@);
            &&& name is Some && is_identifier(name->0)
            &&& label is Some && label->0.len() > 0
            &&& name->0 == lower(sel) || alias_from(lower(sel), 0) == name || lower(label->0)
                == lower(blanked(sel))
        },
        reference_row_failure(row, sel) is None <==> {
            let label = row.raw("column_label"@);
            &&& row.raw("element"@) == Some(lower(sel)) || (label is Some && lower(label->0)
                == lower(blanked(sel)))
            &&& row.raw("reference"@) is Some && row.raw("reference"@)->0.len() > 0
                ==> is_identifier(row.raw("reference"@)->0)
        },
        row.raw("name"@) is Some && row.raw("label"@) is Some ==> catalog_type(row).table
            == row.raw("name"@)->0 && catalog_type(row).label == row.raw("label"@)->0
            && catalog_type(row).resource_type == type_of_table(row.raw("name"@)->0)
            && catalog_type(row).source == "table_metadata"@,
{
    if row.raw("label"@) is Some {
        crate::text_laws::case_does_not_count(row.raw("label"@)->0, blanked(sel));
    }
    if row.raw("column_label"@) is Some {
        crate::text_laws::case_does_not_count(row.raw("column_label"@)->0, blanked(sel));
    }
}

/// A selector looks like a prefix where it is not too long and holds capitals and digits
/// alone.
pub proof fn prefixes_are_capitals_and_digits(s: Seq<char>)
    ensures
        looks_like_prefix(s) <==> byte_len(s) <= 40 && forall|i: int|
            0 <= i < s.len() ==> 'A' <= #[trigger] s[i] <= 'Z' || '0' <= s[i] <= '9',
{
    let p = |c: char| crate::text::is_upper(c) || crate::text::is_digit(c);
    if looks_like_prefix(s) {
        assert forall|i: int| 0 <= i < s.len() implies 'A' <= #[trigger] s[i] <= 'Z' || '0' <= s[i]
            <= '9' by {
            assert(p(s[i]));
        }
    }
}

} // verus!
