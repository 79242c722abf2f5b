//! Laws of outcomes: that nothing is lost or changed on the way from a row, a cached row or
//! an article to what a caller is given, and that refusals say what they are about.
use vstd::prelude::*;

use crate::article::{is_normal_form, ArticleReferences, KnowledgeArticle};
use crate::choices::{choice_views, meant, FieldChoice};
use crate::document::Delivery;
use crate::incident::{is_invalid, list_result, option_result, IncidentReadError};
use crate::knowledge_index::{first_fifty, global_page, tag_note, BaseGroup, KnowledgeTagSummary};
use crate::query::Query;
use crate::record_error::{
    check_result, text_result, RecordResolveError, ResolveErrorView,
};
use crate::record_number::{lookup_result, NumberLookup, NumberLookupView};
use crate::record_query::{plan_of, RecordPageFields, RecordPageRequest, RecordQueryError};
use crate::resolution::{content_told, RecordResolution};
use crate::row::RowView;
use crate::tags::layer_tags;
use crate::text::{text_of, texts};
use crate::user::{
    field_truth, is_cached_row_of, is_cached_user, is_user_of, CachedUserRow, UserRecord,
};

verus! {

/// A user from the cache is the one whose row was kept: the same fields say the same, and
/// stand for the same person.
pub proof fn cached_users_are_those_of_their_row(
    row: RowView,
    kept: CachedUserRow,
    cached: UserRecord,
    fresh: UserRecord,
)
    requires
        is_cached_row_of(kept, row),
        is_cached_user(cached, kept),
        is_user_of(fresh, row),
    ensures
        cached.sys_id@ == row.sys_id,
        fresh.sys_id@ == row.sys_id,
        cached.table@ == "sys_user"@,
        fresh.table@ == "sys_user"@,
        text_of(cached.user_name) == text_of(fresh.user_name),
        text_of(cached.name) == text_of(fresh.name),
        text_of(cached.first_name) == text_of(fresh.first_name),
        text_of(cached.last_name) == text_of(fresh.last_name),
        text_of(cached.email) == text_of(fresh.email),
        text_of(cached.employee_number) == text_of(fresh.employee_number),
        cached.active == fresh.active,
        cached.active == field_truth(row, "active"@),
        text_of(cached.department) == text_of(fresh.department),
        text_of(cached.location) == text_of(fresh.location),
        text_of(cached.title) == text_of(fresh.title),
{
}

/// The normal form of an article keeps its text, its type and its times, takes its base, its
/// category and its author from the references, and has the tags of each layer of its own.
pub proof fn normal_forms_keep_the_article(
    r: KnowledgeArticle,
    article: KnowledgeArticle,
    refs: ArticleReferences,
)
    requires
        is_normal_form(r, article, refs),
    ensures
        r.content == article.content,
        r.article_type == article.article_type,
        r.published_at == article.published_at,
        r.valid_to == article.valid_to,
        r.knowledge_base == refs.knowledge_base,
        r.category == refs.category,
        r.author == refs.author,
        r.record.sys_id == article.record.sys_id,
        r.record.number == article.record.number,
        r.record.fields@.len() == article.record.fields@.len(),
        texts(r.sn_tags@) == layer_tags(texts(article.sn_tags@)),
        texts(r.auto_tags@) == layer_tags(texts(article.auto_tags@)),
        texts(r.user_tags@) == layer_tags(texts(article.user_tags@)),
        r.body_cached <==> article.body_cached || !crate::article::is_blank(article.content@),
        forall|i: int|
            0 <= i < r.record.fields@.len() ==> {
                &&& (#[trigger] r.record.fields@[i]).name == article.record.fields@[i].name
                &&& r.record.fields@[i].field.value == article.record.fields@[i].field.value
            },
{
}

/// A record that was written out is told whole or by its page, and a failure as it is.
pub proof fn written_records_are_told(
    d: Result<Delivery, RecordResolveError>,
    r: Result<RecordResolution, RecordResolveError>,
)
    requires
        content_told(d, r),
    ensures
        r is Ok <==> d is Ok,
        r is Err ==> r->Err_0 == d->Err_0,
        d is Ok && d->Ok_0 is Inline ==> r->Ok_0 is Resolved && r->Ok_0->record == d->Ok_0->Inline_0,
        d is Ok && d->Ok_0 is Paged ==> r->Ok_0 is Document && r->Ok_0->Document_0
            == d->Ok_0->Paged_0,
{
}

/// A state that is not settled is refused with the selector, the table whose state it is,
/// and the choices there are; it is ambiguous where more than one choice is meant.
pub proof fn unsettled_states_are_refused(
    request: RecordPageRequest,
    fields: RecordPageFields,
    choices: Seq<FieldChoice>,
    r: Result<Query, RecordQueryError>,
)
    requires
        plan_of(request, fields, choices, r),
    ensures
        r is Err ==> {
            &&& r->Err_0 is UnresolvedState
            &&& r->Err_0->field@ == "state"@
            &&& r->Err_0->choices@ == choices
            &&& request is ChangeRequest ==> r->Err_0->table@ == "change_request"@
            &&& request is Story ==> r->Err_0->table@ == "rm_story"@
        },
        request is ChangeRequest ==> ({
            let state = request->ChangeRequest_filters.state;
            let hits = meant(choice_views(choices), state->0@);
            &&& r is Err <==> state is Some && hits.len() != 1
            &&& r is Err ==> r->Err_0->requested@ == state->0@ && (r->Err_0->ambiguous
                <==> hits.len() >= 2)
        }),
        request is Story && request->Story_filters.states is None ==> r is Ok,
{
}

/// A refusal of an incident request says that the parameters are at fault, with the message
/// that is owed; what is accepted is what was read.
pub proof fn refusals_carry_their_message(
    e: IncidentReadError,
    message: Seq<char>,
    list: Result<Vec<String>, IncidentReadError>,
    values: Result<Seq<Seq<char>>, Seq<char>>,
    one: Result<Option<String>, IncidentReadError>,
    value: Result<Option<Seq<char>>, Seq<char>>,
)
    requires
        is_invalid(e, message),
        list_result(list, values),
        option_result(one, value),
    ensures
        e is InvalidParams,
        e->InvalidParams_0@ == message,
        list is Ok <==> values is Ok,
        list is Ok ==> texts(list->Ok_0@) == values->Ok_0,
        list is Err ==> list->Err_0 is InvalidParams && list->Err_0->InvalidParams_0@
            == values->Err_0,
        one is Ok <==> value is Ok,
        one is Ok ==> text_of(one->Ok_0) == value->Ok_0,
        one is Err ==> one->Err_0 is InvalidParams && one->Err_0->InvalidParams_0@ == value->Err_0,
{
}

/// A result agrees with what is stated of it: success with the same value, or the same
/// failure.
pub proof fn results_agree_with_what_is_stated(
    text: Result<String, RecordResolveError>,
    t: Result<Seq<char>, ResolveErrorView>,
    check: Result<(), RecordResolveError>,
    c: Option<ResolveErrorView>,
    lookup: Result<NumberLookup, RecordResolveError>,
    l: Result<NumberLookupView, ResolveErrorView>,
)
    requires
        text_result(text, t),
        check_result(check, c),
        lookup_result(lookup, l),
    ensures
        text is Ok <==> t is Ok,
        text is Ok ==> text->Ok_0@ == t->Ok_0,
        text is Err ==> text->Err_0@ == t->Err_0,
        check is Ok <==> c is None,
        check is Err ==> check->Err_0@ == c->0,
        lookup is Ok <==> l is Ok,
        lookup is Ok ==> lookup->Ok_0@ == l->Ok_0,
        lookup is Err ==> lookup->Err_0@ == l->Err_0,
{
}

/// The page of all bases ends with the tags: with none there is no such part, and one tag is
/// its whole list.
pub proof fn the_page_of_all_bases_ends_with_the_tags(
    groups: Seq<BaseGroup>,
    stamp: Seq<char>,
    tag: KnowledgeTagSummary,
)
    ensures
        global_page(groups, seq![tag], stamp) == global_page(groups, Seq::empty(), stamp)
            + "## All tags (top 50)\n"@ + tag_note(tag) + "\n"@,
{
    let none = Seq::<KnowledgeTagSummary>::empty();
    let one = seq![tag];
    assert(first_fifty(one) == one);
    let notes = crate::knowledge_index::tag_notes(one);
    assert(notes =~= seq![tag_note(tag)]);
    assert(crate::markdown::joined_with(notes, " \u{b7} "@) =~= tag_note(tag)) by {
        reveal_with_fuel(crate::markdown::joined_with, 2);
    }
    let front = global_page(groups, none, stamp);
    assert(global_page(groups, one, stamp) =~= front + "## All tags (top 50)\n"@ + tag_note(tag)
        + "\n"@);
}

} // verus!
