//! Laws of the passes over the knowledge articles: what is asked for, which pass is
//! due, and what becomes of articles that are gone.
use vstd::prelude::*;

use crate::article::is_blank;
use crate::knowledge_sync::{
    changed_at, duration_of, filed_under, filter_step, is_later, knowledge_query, loses_article,
    outcome_details, plain_knowledge_query, query_limit, removal_of, removals, sync_mode,
    tombstones, with_filter, with_term, KnowledgeSyncMode, Moment, RecordLifecycle, RemovalView,
    StoredArticle, KB_FULL_FIELDS, KB_METADATA_FIELDS,
};
use crate::listing::{lemma_pass_joined, pass};
use crate::number::number_of;
use crate::query::{ConditionView, DisplayMode, Operator, QueryView, SortKeyView};
use crate::row::RowView;
use crate::selection::{group_selection, references_are_looked_for, selects, Held};
use crate::split::{pieces, Separator};
use crate::split_laws::{
    pieces_hold_no_separator, texts_are_cut_where_they_are_joined,
    texts_are_parted_at_the_first_needle, the_first_needle_parts,
};
use crate::tables::sys_id_of;
use crate::tags::tag_text;
use crate::text::{
    byte_len, decimal, has_at, has_text, is_white_space, lemma_trim_stretch, names_of, text_less,
    text_of, trim,
};

verus! {

proof fn lemma_nothing_to_trim(s: Seq<char>)
    requires
        s.len() > 0,
        !is_white_space(s[0]),
        !is_white_space(s[s.len() - 1]),
    ensures
        trim(s) == s,
{
    let (from, to) = lemma_trim_stretch(s);
    assert(from == 0 && to == s.len());
    assert(s.subrange(0, s.len() as int) =~= s);
}

/// Without a filter, or with a blank one, the published articles are asked for: that
/// is the one condition of the query.
pub proof fn published_articles_are_asked_for(bodies: bool, filter: Option<Seq<char>>)
    requires
        filter is None || forall|i: int|
            0 <= i < filter->0.len() ==> is_white_space(#[trigger] filter->0[i]),
    ensures
        knowledge_query(bodies, filter) is Ok,
        knowledge_query(bodies, filter)->Ok_0.conditions == seq![
            ConditionView {
                alternative: false,
                field: "workflow_state"@,
                operator: Operator::Equals,
                value: "published"@,
            },
        ],
{
    if filter is Some {
        crate::text_laws::blank_texts_are_white(filter->0);
    }
    let f = "workflow_state=published"@;
    reveal_strlit("workflow_state=published");
    reveal_strlit("workflow_state");
    reveal_strlit("published");
    reveal_strlit("!=");
    reveal_strlit("=");
    pieces_hold_no_separator(f, Separator::Caret);
    assert(pieces(f, Separator::Caret) == seq![f]);
    lemma_nothing_to_trim(f);
    assert forall|k: int| 0 <= k implies !#[trigger] has_at(f, "!="@, k) by {
        if k + 2 <= f.len() {
            assert(f.subrange(k, k + 2)[0] == f[k]);
            assert("!="@[0] == '!');
        }
    }
    texts_are_parted_at_the_first_needle(f, "!="@);
    assert(f.subrange(14, 15) =~= "="@);
    assert(has_at(f, "="@, 14));
    assert forall|k: int| 0 <= k < 14 implies !#[trigger] has_at(f, "="@, k) by {
        assert(f.subrange(k, k + 1)[0] == f[k]);
        assert("="@[0] == '=');
    }
    the_first_needle_parts(f, "="@, 14);
    assert(f.subrange(0, 14) =~= "workflow_state"@);
    assert(f.subrange(15, 24) =~= "published"@);
    lemma_nothing_to_trim("workflow_state"@);
    lemma_nothing_to_trim("published"@);
    let q = plain_knowledge_query(bodies);
    assert(seq![f].drop_last() =~= Seq::<Seq<char>>::empty());
    assert(pass(Seq::<Seq<char>>::empty(), q, filter_step()) == Ok::<QueryView, Seq<char>>(q));
    assert(with_filter(q, f) == with_term(q, f));
    assert(knowledge_query(bodies, filter)->Ok_0.conditions =~= seq![
        ConditionView {
            alternative: false,
            field: "workflow_state"@,
            operator: Operator::Equals,
            value: "published"@,
        },
    ]);
}

/// With a filter that is not blank, what it says is asked for, and nothing else.
pub proof fn filters_are_asked_for_as_given(bodies: bool, filter: Seq<char>)
    requires
        !is_blank(filter),
    ensures
        knowledge_query(bodies, Some(filter)) == with_filter(
            plain_knowledge_query(bodies),
            filter,
        ),
        plain_knowledge_query(bodies).conditions.len() == 0,
{
}

/// A term with `=` asks for the rows whose field holds the value, one with `!=` for
/// those whose field holds another; the blanks around field and value do not count.
pub proof fn terms_compare_a_field(q: QueryView, field: Seq<char>, value: Seq<char>, held: Held)
    requires
        forall|i: int| 0 <= i < field.len() ==> #[trigger] field[i] != '=' && field[i] != '!',
        forall|i: int| 0 <= i < value.len() ==> #[trigger] value[i] != '=' && value[i] != '!',
    ensures
        ({
            let equal = with_term(q, field + "="@ + value);
            let other = with_term(q, field + "!="@ + value);
            &&& equal is Ok
            &&& selects(equal->Ok_0, held) <==> selects(q, held) && held(trim(field)) == trim(value)
            &&& equal->Ok_0.conditions.len() == q.conditions.len() + 1
            &&& other is Ok
            &&& selects(other->Ok_0, held) <==> selects(q, held) && held(trim(field)) != trim(value)
            &&& other->Ok_0.conditions.len() == q.conditions.len() + 1
        }),
{
    broadcast use group_selection;

    reveal_strlit("!=");
    reveal_strlit("=");
    let n = field.len() as int;
    let e = field + "="@ + value;
    assert forall|k: int| 0 <= k implies !#[trigger] has_at(e, "!="@, k) by {
        if k + 2 <= e.len() {
            assert(e.subrange(k, k + 2)[0] == e[k]);
            assert("!="@[0] == '!');
        }
    }
    texts_are_parted_at_the_first_needle(e, "!="@);
    assert(e.subrange(n, n + 1) =~= "="@);
    assert forall|k: int| 0 <= k < n implies !#[trigger] has_at(e, "="@, k) by {
        assert(e.subrange(k, k + 1)[0] == field[k]);
        assert("="@[0] == '=');
    }
    the_first_needle_parts(e, "="@, n);
    assert(e.subrange(0, n) =~= field);
    assert(e.subrange(n + 1, e.len() as int) =~= value);
    let o = field + "!="@ + value;
    assert(o.subrange(n, n + 2) =~= "!="@);
    assert forall|k: int| 0 <= k < n implies !#[trigger] has_at(o, "!="@, k) by {
        assert(o.subrange(k, k + 2)[0] == field[k]);
        assert("!="@[0] == '!');
    }
    the_first_needle_parts(o, "!="@, n);
    assert(o.subrange(0, n) =~= field);
    assert(o.subrange(n + 2, o.len() as int) =~= value);
    assert(with_term(q, e) == Ok::<QueryView, Seq<char>>(q.equals(trim(field), trim(value))));
    assert(with_term(q, o) == Ok::<QueryView, Seq<char>>(
        q.when(false, trim(field), Operator::NotEquals, trim(value)),
    ));
}

/// A term that compares nothing is refused, and one that is empty asks for nothing.
pub proof fn other_terms_are_refused(q: QueryView, term: Seq<char>)
    requires
        forall|i: int| 0 <= i < term.len() ==> #[trigger] term[i] != '=',
    ensures
        with_term(q, term) is Err <==> term.len() > 0,
        term.len() == 0 ==> with_term(q, term) == Ok::<QueryView, Seq<char>>(q),
        term.len() > 0 ==> with_term(q, term)->Err_0 == "unsupported knowledge filter `"@ + term
            + "`"@,
{
    reveal_strlit("!=");
    reveal_strlit("=");
    assert forall|k: int| 0 <= k implies !#[trigger] has_at(term, "!="@, k) by {
        if k + 2 <= term.len() {
            assert(term.subrange(k, k + 2)[1] == term[k + 1]);
            assert("!="@[1] == '=');
        }
    }
    texts_are_parted_at_the_first_needle(term, "!="@);
    assert forall|k: int| 0 <= k implies !#[trigger] has_at(term, "="@, k) by {
        if k + 1 <= term.len() {
            assert(term.subrange(k, k + 1)[0] == term[k]);
            assert("="@[0] == '=');
        }
    }
    texts_are_parted_at_the_first_needle(term, "="@);
}

/// The terms of a filter stand between carets, and each narrows what is asked for: two
/// filters with a caret between them are put into a query one after the other.
pub proof fn filters_are_joined_by_carets(q: QueryView, a: Seq<char>, b: Seq<char>)
    ensures
        with_filter(q, a + "^"@ + b) == (match with_filter(q, a) {
            Ok(narrowed) => with_filter(narrowed, b),
            Err(e) => Err(e),
        }),
        (forall|i: int| 0 <= i < a.len() ==> #[trigger] a[i] != '^') ==> with_filter(q, a)
            == with_term(q, trim(a)),
{
    reveal_strlit("^");
    assert(a + "^"@ + b =~= a.push('^') + b);
    texts_are_cut_where_they_are_joined(a, '^', b, Separator::Caret);
    lemma_pass_joined(
        pieces(a, Separator::Caret),
        pieces(b, Separator::Caret),
        q,
        filter_step(),
    );
    pieces_hold_no_separator(a, Separator::Caret);
    if forall|i: int| 0 <= i < a.len() ==> #[trigger] a[i] != '^' {
        assert(pieces(a, Separator::Caret) == seq![a]);
        assert(seq![a].drop_last() =~= Seq::<Seq<char>>::empty());
        assert(pass(Seq::<Seq<char>>::empty(), q, filter_step()) == Ok::<QueryView, Seq<char>>(q));
    }
}

proof fn lemma_filtered(items: Seq<Seq<char>>, q: QueryView)
    ensures
        pass(items, q, filter_step()) is Ok ==> pass(items, q, filter_step())->Ok_0 == (QueryView {
            conditions: pass(items, q, filter_step())->Ok_0.conditions,
            ..q
        }),
    decreases items.len(),
{
    if items.len() > 0 {
        lemma_filtered(items.drop_last(), q);
    }
}

/// The articles come two hundred at a time, those changed first first; with the bodies
/// where they are wanted.
pub proof fn articles_come_by_their_changes(bodies: bool, filter: Option<Seq<char>>)
    requires
        knowledge_query(bodies, filter) is Ok,
    ensures
        ({
            let q = knowledge_query(bodies, filter)->Ok_0;
            &&& q.table == "kb_knowledge"@
            &&& q.order == seq![
                SortKeyView { field: "sys_updated_on"@, descending: false },
                SortKeyView { field: "sys_id"@, descending: false },
            ]
            &&& q.limit == Some(200u32)
            &&& q.offset is None
            &&& q.display == DisplayMode::Both
            &&& q.dot_walk.len() == 0
            &&& bodies ==> q.fields == names_of(KB_FULL_FIELDS@)
            &&& !bodies ==> q.fields == names_of(KB_METADATA_FIELDS@)
        }),
{
    let f = crate::knowledge_sync::effective_filter(filter);
    let base = plain_knowledge_query(bodies);
    lemma_filtered(pieces(f, Separator::Caret), base);
    assert(base.order =~= seq![
        SortKeyView { field: "sys_updated_on"@, descending: false },
        SortKeyView { field: "sys_id"@, descending: false },
    ]);
    assert(bodies ==> base.fields =~= names_of(KB_FULL_FIELDS@));
    assert(!bodies ==> base.fields =~= names_of(KB_METADATA_FIELDS@));
}

/// What is read of an article, with and without its body: they differ in the body
/// alone.
pub proof fn bodies_are_read_on_demand(i: int)
    ensures
        KB_METADATA_FIELDS@.len() == 19,
        KB_FULL_FIELDS@.len() == 21,
        0 <= i < 19 ==> KB_FULL_FIELDS@[i]@ == KB_METADATA_FIELDS@[i]@,
        KB_FULL_FIELDS@[19]@ == "article_body"@,
        KB_FULL_FIELDS@[20]@ == "text"@,
        KB_FULL_FIELDS@[0]@ == "sys_id"@,
        KB_FULL_FIELDS@[1]@ == "number"@,
        KB_FULL_FIELDS@[2]@ == "short_description"@,
        KB_FULL_FIELDS@[3]@ == "description"@,
        KB_FULL_FIELDS@[4]@ == "state"@,
        KB_FULL_FIELDS@[5]@ == "workflow_state"@,
        KB_FULL_FIELDS@[6]@ == "article_type"@,
        KB_FULL_FIELDS@[7]@ == "valid_to"@,
        KB_FULL_FIELDS@[8]@ == "published"@,
        KB_FULL_FIELDS@[9]@ == "knowledge_base"@,
        KB_FULL_FIELDS@[10]@ == "category"@,
        KB_FULL_FIELDS@[11]@ == "kb_knowledge_base"@,
        KB_FULL_FIELDS@[12]@ == "kb_category"@,
        KB_FULL_FIELDS@[13]@ == "author"@,
        KB_FULL_FIELDS@[14]@ == "sys_updated_on"@,
        KB_FULL_FIELDS@[15]@ == "u_keywords"@,
        KB_FULL_FIELDS@[16]@ == "keywords"@,
        KB_FULL_FIELDS@[17]@ == "meta"@,
        KB_FULL_FIELDS@[18]@ == "sys_tags"@,
{
    if 0 <= i < 19 {
        assert(i == 0 || i == 1 || i == 2 || i == 3 || i == 4 || i == 5 || i == 6 || i == 7 || i
            == 8 || i == 9 || i == 10 || i == 11 || i == 12 || i == 13 || i == 14 || i == 15 || i
            == 16 || i == 17 || i == 18);
    }
}

/// A knowledge base and a category narrow what is asked for, each on its own field: by
/// the id, or by a part of the name; a blank one narrows nothing.
pub proof fn articles_are_filed_under_base_and_category(
    q: QueryView,
    base: Option<Seq<char>>,
    category: Option<Seq<char>>,
    held: Held,
)
    ensures
        selects(filed_under(q, base, category), held) <==> {
            &&& selects(q, held)
            &&& base is Some && !is_blank(base->0) ==> match sys_id_of(base->0) {
                Some(id) => held("kb_knowledge_base"@) == id,
                None => has_text(held("kb_knowledge_base"@ + ".name"@), trim(base->0)),
            }
            &&& category is Some && !is_blank(category->0) ==> match sys_id_of(category->0) {
                Some(id) => held("kb_category"@) == id,
                None => has_text(held("kb_category"@ + ".name"@), trim(category->0)),
            }
        },
        filed_under(q, base, category).table == q.table,
        filed_under(q, base, category).fields == q.fields,
        filed_under(q, base, category).order == q.order,
        filed_under(q, base, category).limit == q.limit,
{
    references_are_looked_for(q, "kb_knowledge_base"@, base, held);
    let under = crate::reference::referring(q, "kb_knowledge_base"@, base);
    references_are_looked_for(under, "kb_category"@, category, held);
}

/// A limit is at least one and fits 32 bits; within these bounds it is what was asked.
pub proof fn limits_are_positive(n: int)
    ensures
        1 <= query_limit(n),
        1 <= n <= u32::MAX ==> query_limit(n) == n,
        n < 1 ==> query_limit(n) == 1,
        n > u32::MAX ==> query_limit(n) == u32::MAX,
{
}

/// A duration is a number and a unit: seconds, minutes, hours or days.
pub proof fn durations_have_units(number: Seq<char>, unit: char)
    requires
        byte_len(number.push(unit)) >= 2,
    ensures
        ({
            let d = duration_of(number.push(unit));
            let n = number_of(trim(number));
            &&& d is Some <==> n is Some && (unit == 's' || unit == 'm' || unit == 'h' || unit
                == 'd')
            &&& d is Some && unit == 's' ==> d->0 == n->0
            &&& d is Some && unit == 'm' ==> d->0 == n->0 * 60
            &&& d is Some && unit == 'h' ==> d->0 == n->0 * 60 * 60
            &&& d is Some && unit == 'd' ==> d->0 == n->0 * 24 * 60 * 60
        }),
{
    assert(number.push(unit).drop_last() =~= number);
}

/// What is shorter than two bytes is no duration.
pub proof fn durations_have_a_number_and_a_unit(input: Seq<char>)
    ensures
        byte_len(input) < 2 ==> duration_of(input) is None,
{
}

/// A pass is full where that is asked for, where a part of the watermark is missing,
/// or where there is an interval that can be read and the last full pass is not known
/// or lies at least that far back (or ahead of the clock); every other one is
/// incremental.
pub proof fn full_passes_come_when_due(
    requested_full: bool,
    interval: Option<Seq<char>>,
    last: Option<Moment>,
    watermark: (Option<Seq<char>>, Option<Seq<char>>),
    now: Moment,
)
    ensures
        sync_mode(requested_full, interval, last, watermark, now) == KnowledgeSyncMode::Full <==> {
            ||| requested_full
            ||| watermark.0 is None
            ||| watermark.1 is None
            ||| interval is Some && duration_of(interval->0) is Some && (last is None || {
                let elapsed = (now.seconds - last->0.seconds) * 1_000_000_000 + (now.nanos
                    - last->0.nanos);
                elapsed < 0 || elapsed >= duration_of(interval->0)->0 * 1_000_000_000
            })
        },
{
}

/// What becomes of an article of the store: one that was seen stays; of the others an
/// active one is set aside, one set aside before is dropped, and one that was dropped
/// stays dropped.
pub proof fn articles_are_removed_step_by_step(row: StoredArticle, seen: Seq<Seq<char>>)
    ensures
        seen.contains(row.sys_id@) ==> removal_of(row, seen) is None,
        !seen.contains(row.sys_id@) && row.lifecycle == RecordLifecycle::Active ==> removal_of(
            row,
            seen,
        ) == Some(RemovalView::Tombstone(row.sys_id@)),
        !seen.contains(row.sys_id@) && row.lifecycle == RecordLifecycle::Tombstoned ==> removal_of(
            row,
            seen,
        ) == Some(RemovalView::Prune(row.sys_id@)),
        row.lifecycle == RecordLifecycle::Pruned ==> removal_of(row, seen) is None,
{
}

/// Every article that is to be removed is, once for each time it is stored, and no
/// other: what is done to a list is what is done to its parts, in their order.
pub proof fn every_gone_article_is_removed(
    a: Seq<StoredArticle>,
    b: Seq<StoredArticle>,
    row: StoredArticle,
    seen: Seq<Seq<char>>,
)
    ensures
        removals(Seq::empty(), seen).len() == 0,
        removals(seq![row], seen) == (match removal_of(row, seen) {
            Some(r) => seq![r],
            None => Seq::empty(),
        }),
        removals(a + b, seen) == removals(a, seen) + removals(b, seen),
    decreases b.len(),
{
    reveal_with_fuel(removals, 2);
    assert(seq![row].drop_last() =~= Seq::<StoredArticle>::empty());
    if b.len() == 0 {
        assert(a + b =~= a);
        assert(removals(a, seen) + removals(b, seen) =~= removals(a, seen));
    } else {
        every_gone_article_is_removed(a, b.drop_last(), row, seen);
        assert((a + b).drop_last() =~= a + b.drop_last());
        assert((a + b).last() == b.last());
        assert(removals(a + b, seen) =~= removals(a, seen) + removals(b, seen));
    }
}

pub open spec fn sets_aside() -> spec_fn(RemovalView) -> bool {
    |r: RemovalView| r is Tombstone
}

/// How many articles are set aside is how many of the removals do so.
pub proof fn set_aside_articles_are_counted(list: Seq<RemovalView>)
    ensures
        tombstones(list) == list.filter(sets_aside()).len(),
    decreases list.len(),
{
    reveal(Seq::filter);
    if list.len() > 0 {
        set_aside_articles_are_counted(list.drop_last());
    }
}

/// A knowledge base has changed where one of its articles was not seen.
pub proof fn bases_lose_unseen_articles(
    rows: Seq<StoredArticle>,
    seen: Seq<Seq<char>>,
    i: int,
    base: Seq<char>,
)
    requires
        0 <= i < rows.len(),
        text_of(rows[i].knowledge_base_sys_id) == Some(base),
        base.len() > 0,
        !seen.contains(rows[i].sys_id@),
    ensures
        loses_article(rows, seen, base),
{
}

/// When an article was changed is read from its own field, without the blanks around.
pub proof fn changes_are_read_from_the_row(row: RowView)
    ensures
        tag_text(row, "sys_updated_on"@) is Some ==> changed_at(row) == trim(
            tag_text(row, "sys_updated_on"@)->0,
        ),
        tag_text(row, "sys_updated_on"@) is None ==> changed_at(row).len() == 0,
{
    let (from, to) = lemma_trim_stretch(Seq::<char>::empty());
}

/// What is told of a pass gives its four counts.
pub proof fn outcomes_give_the_counts(processed: nat, drift: nat, tombstoned: nat, pruned: nat)
    ensures
        outcome_details(processed, drift, tombstoned, pruned) == "processed "@ + decimal(processed)
            + " articles, auto-tag drift "@ + decimal(drift) + ", tombstoned "@ + decimal(
            tombstoned,
        ) + ", pruned "@ + decimal(pruned),
{
}

/// One article is behind another where it was changed later, or at the same time with
/// a greater id; never both ways.
pub proof fn articles_are_ordered_by_change_and_id(
    u: Seq<char>,
    s: Seq<char>,
    v: Seq<char>,
    t: Seq<char>,
)
    ensures
        text_less(v, u) ==> is_later(u, s, v, t),
        u == v ==> (is_later(u, s, v, t) <==> text_less(t, s)),
        text_less(u, v) ==> !is_later(u, s, v, t),
{
    crate::text::lemma_text_order(u, v, u);
    crate::text::lemma_text_less_irreflexive(u);
    crate::text::lemma_text_order(v, u, v);
}

} // verus!
