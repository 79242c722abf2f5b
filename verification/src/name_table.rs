//! Searching one table by name: which of its fields hold names, the query over
//! them, and the page that answers it.
use vstd::prelude::*;
use vstd::string::*;

use crate::listing::{ascending, insert_ascending};
use crate::query::{DisplayMode, Query, QueryView};
use crate::record_error::{
    integrity, unavailable, RecordResolveError, ResolveErrorView,
};
use crate::record_name_resolver::{
    lowercase, match_views, to_lowercase, NameMatchView, RecordNameMatch, NAME_FIELDS, NAME_ROWS,
};
use crate::record_types::{reply_view, resource_type, type_of_table};
use crate::row::{Failure, Page, PageView, Row, RowView};
use crate::tables::{normalize_record_lookup_sys_id, sys_id_of};
use crate::text::{
    byte_len, byte_length, identifier, is_identifier, less_text, list_has, names_of, same,
    text_less, text_of, texts,
};

verus! {

/// A column of a table's live model, and whether the model marks it as the
/// display value.
pub struct Column {
    pub name: String,
    pub display: bool,
}

pub open spec fn has_column(columns: Seq<Column>, name: Seq<char>) -> bool {
    exists|i: int| 0 <= i < columns.len() && (#[trigger] columns[i]).name@ == name
}

pub open spec fn displays(columns: Seq<Column>, name: Seq<char>) -> bool {
    exists|i: int|
        0 <= i < columns.len() && (#[trigger] columns[i]).name@ == name && columns[i].display
}

pub fn column_known(columns: &Vec<Column>, name: &str) -> (r: bool)
    ensures
        r == has_column(columns@, name@),
{
    let mut i: usize = 0;
    while i < columns.len()
        invariant
            i <= columns@.len(),
            forall|j: int| 0 <= j < i ==> (#[trigger] columns@[j]).name@ != name@,
        decreases columns@.len() - i,
    {
        if same(columns[i].name.as_str(), name) {
            assert(columns@[i as int].name@ == name@);
            return true;
        }
        i += 1;
    }
    false
}

/// Whether a field of the table may hold a name: it is one of the usual ones
/// and the table has it, or the model displays it, or the dictionary names it.
pub open spec fn is_name_field(
    columns: Seq<Column>,
    display: Option<Seq<char>>,
    field: Seq<char>,
) -> bool {
    ||| names_of(NAME_FIELDS@).contains(field) && has_column(columns, field)
    ||| displays(columns, field) && is_identifier(field)
    ||| display == Some(field)
}

/// The fields of a table that may hold a name, in ascending order. A display
/// field that the live model does not have contradicts it.
#[verifier::loop_isolation(false)]
pub fn name_fields(columns: &Vec<Column>, display: &Option<String>) -> (r: Result<
    Vec<String>,
    RecordResolveError,
>)
    ensures
        if display is Some && !(is_identifier(display->0@) && has_column(columns@, display->0@)) {
            r is Err && r->Err_0@ == ResolveErrorView::Integrity(
                "display field is absent from the live table model"@,
            )
        } else {
            r is Ok && ascending(texts(r->Ok_0@)) && forall|f: Seq<char>| #[trigger]
                texts(r->Ok_0@).contains(f) <==> is_name_field(columns@, text_of(*display), f)
        },
{
    let mut fields: Vec<String> = Vec::new();
    assert(texts(fields@) =~= Seq::empty());
    let mut i: usize = 0;
    while i < 8
        invariant
            i <= 8,
            ascending(texts(fields@)),
            forall|f: Seq<char>| #[trigger]
                texts(fields@).contains(f) <==> has_column(columns@, f) && exists|k: int|
                    0 <= k < i && #[trigger] names_of(NAME_FIELDS@)[k] == f,
        decreases 8 - i,
    {
        let name: &'static str = NAME_FIELDS[i];
        let ghost before = texts(fields@);
        assert(names_of(NAME_FIELDS@)[i as int] == name@);
        if column_known(columns, name) {
            insert_ascending(&mut fields, name);
        }
        assert forall|f: Seq<char>| #[trigger] texts(fields@).contains(f) <==> has_column(
            columns@,
            f,
        ) && exists|k: int| 0 <= k < i + 1 && #[trigger] names_of(NAME_FIELDS@)[k] == f by {
            if exists|k: int| 0 <= k < i + 1 && #[trigger] names_of(NAME_FIELDS@)[k] == f {
                let k = choose|k: int| 0 <= k < i + 1 && #[trigger] names_of(NAME_FIELDS@)[k] == f;
                if k < i && has_column(columns@, f) {
                    assert(before.contains(f));
                }
            }
            if before.contains(f) {
                let k = choose|k: int| 0 <= k < i && #[trigger] names_of(NAME_FIELDS@)[k] == f;
                assert(names_of(NAME_FIELDS@)[k] == f);
            }
            if f == name@ {
                assert(names_of(NAME_FIELDS@)[i as int] == f);
            }
        }
        i += 1;
    }
    let ghost usual = texts(fields@);
    assert forall|f: Seq<char>| #[trigger] usual.contains(f) <==> has_column(columns@, f)
        && names_of(NAME_FIELDS@).contains(f) by {
        if names_of(NAME_FIELDS@).contains(f) {
            let k = choose|k: int| 0 <= k < 8 && names_of(NAME_FIELDS@)[k] == f;
            assert(names_of(NAME_FIELDS@)[k] == f);
        }
    }
    let mut j: usize = 0;
    while j < columns.len()
        invariant
            j <= columns@.len(),
            ascending(texts(fields@)),
            forall|f: Seq<char>| #[trigger]
                texts(fields@).contains(f) <==> usual.contains(f) || (is_identifier(f) && displays(
                    columns@.subrange(0, j as int),
                    f,
                )),
        decreases columns@.len() - j,
    {
        let ghost before = texts(fields@);
        let ghost shorter = columns@.subrange(0, j as int);
        let ghost longer = columns@.subrange(0, j + 1);
        if columns[j].display && identifier(columns[j].name.as_str()) {
            insert_ascending(&mut fields, columns[j].name.as_str());
        }
        assert forall|f: Seq<char>| #[trigger] texts(fields@).contains(f) <==> usual.contains(f)
            || (is_identifier(f) && displays(longer, f)) by {
            if displays(longer, f) {
                let k = choose|k: int|
                    0 <= k < longer.len() && (#[trigger] longer[k]).name@ == f && longer[k].display;
                if k < j {
                    assert(shorter[k] == longer[k]);
                    assert(displays(shorter, f));
                } else {
                    assert(longer[k] == columns@[j as int]);
                }
            }
            if displays(shorter, f) {
                let k = choose|k: int|
                    0 <= k < shorter.len() && (#[trigger] shorter[k]).name@ == f
                        && shorter[k].display;
                assert(longer[k] == shorter[k]);
                assert(displays(longer, f));
            }
            if columns@[j as int].display && f == columns@[j as int].name@ {
                assert(longer[j as int] == columns@[j as int]);
                assert(displays(longer, f));
            }
            assert(before.contains(f) <==> usual.contains(f) || (is_identifier(f) && displays(
                shorter,
                f,
            )));
        }
        j += 1;
    }
    assert(columns@.subrange(0, columns@.len() as int) =~= columns@);
    if let Some(field) = display {
        if !identifier(field.as_str()) || !column_known(columns, field.as_str()) {
            return Err(integrity("display field is absent from the live table model"));
        }
        insert_ascending(&mut fields, field.as_str());
    }
    Ok(fields)
}

/// Whether a table without any name field is done with: only where its metadata
/// was complete.
pub fn without_name_fields(metadata_complete: bool) -> (r: Result<(), RecordResolveError>)
    ensures
        r is Ok <==> metadata_complete,
        r is Err ==> r->Err_0@ == ResolveErrorView::Unavailable(
            "no readable name field definition"@,
        ),
{
    if metadata_complete {
        Ok(())
    } else {
        Err(unavailable("no readable name field definition"))
    }
}

/// The conditions: one of the fields equals the name.
pub open spec fn any_equals(q: QueryView, fields: Seq<Seq<char>>, name: Seq<char>) -> QueryView
    decreases fields.len(),
{
    if fields.len() == 0 {
        q
    } else {
        let front = any_equals(q, fields.drop_last(), name);
        if fields.len() == 1 {
            front.equals(fields.last(), name)
        } else {
            front.or_equals(fields.last(), name)
        }
    }
}

/// What is read of each row: the name fields, the identity, and the number
/// where the table has one.
pub open spec fn projection(fields: Seq<Seq<char>>, has_number: bool) -> Seq<Seq<char>> {
    let base = fields.push("sys_id"@).push("sys_class_name"@);
    if has_number && !fields.contains("number"@) {
        base.push("number"@)
    } else {
        base
    }
}

pub open spec fn name_query_of(
    table: Seq<char>,
    fields: Seq<Seq<char>>,
    has_number: bool,
    name: Seq<char>,
    after: Option<Seq<char>>,
) -> QueryView {
    let q = any_equals(
        QueryView::of(table).fields(projection(fields, has_number)).display(
            DisplayMode::Both,
        ).no_links().limit(NAME_ROWS).no_count().ascending("sys_id"@),
        fields,
        name,
    );
    match after {
        Some(id) => q.greater_than("sys_id"@, id),
        None => q,
    }
}

pub fn name_query(
    table: &str,
    fields: &Vec<String>,
    has_number: bool,
    name: &str,
    after: &Option<String>,
) -> (q: Query)
    ensures
        q@ == name_query_of(table@, texts(fields@), has_number, name@, text_of(*after)),
{
    let ghost all = texts(fields@);
    let mut wanted: Vec<String> = crate::text::copy_list(fields);
    let add_number: bool = has_number && !list_has(fields, "number");
    let ghost w0 = wanted@;
    wanted.push("sys_id".to_owned());
    let ghost w1 = wanted@;
    wanted.push("sys_class_name".to_owned());
    let ghost w2 = wanted@;
    if add_number {
        wanted.push("number".to_owned());
    }
    assert(texts(wanted@) =~= projection(all, has_number));
    let mut q: Query = Query::of(table).fields(&wanted).display(DisplayMode::Both).no_links().limit(
        NAME_ROWS,
    ).no_count().ascending("sys_id");
    let ghost base = q@;
    let mut i: usize = 0;
    assert(all.subrange(0, 0) =~= Seq::empty());
    while i < fields.len()
        invariant
            i <= fields@.len(),
            all == texts(fields@),
            q@ == any_equals(base, all.subrange(0, i as int), name@),
        decreases fields@.len() - i,
    {
        proof {
            let longer = all.subrange(0, i + 1);
            assert(longer.drop_last() =~= all.subrange(0, i as int));
            assert(longer.last() == fields@[i as int]@);
        }
        q = if i == 0 {
            q.equals(fields[i].as_str(), name)
        } else {
            q.or_equals(fields[i].as_str(), name)
        };
        i += 1;
    }
    assert(all.subrange(0, all.len() as int) =~= all);
    match after {
        Some(id) => q.greater_than("sys_id", id.as_str()),
        None => q,
    }
}

/// Whether a field of a row bears the name, up to case.
pub open spec fn bears(row: RowView, name: Seq<char>) -> spec_fn(Seq<char>) -> bool {
    |field: Seq<char>|
        match row.raw(field) {
            Some(v) => lowercase(v) == lowercase(name),
            None => false,
        }
}

/// The class that a row of a table gives itself.
pub open spec fn named_class(row: RowView, table: Seq<char>) -> Seq<char> {
    match row.raw("sys_class_name"@) {
        Some(c) if c.len() > 0 => c,
        _ => table,
    }
}

/// What one row of the page is: a record that bears the name, behind the one
/// before it, or a contradiction.
pub open spec fn name_row(
    row: RowView,
    table: Seq<char>,
    name: Seq<char>,
    fields: Seq<Seq<char>>,
    previous: Seq<char>,
) -> Result<NameMatchView, ResolveErrorView> {
    let number = match row.raw("number"@) {
        Some(n) if n.len() > 0 => Some(n),
        _ => None,
    };
    match sys_id_of(row.sys_id) {
        None => Err(ResolveErrorView::Integrity("name query returned an invalid sys_id"@)),
        Some(id) => if !text_less(previous, id) {
            Err(ResolveErrorView::Integrity("name query returned a non-progressing page"@))
        } else if !is_identifier(named_class(row, table)) {
            Err(ResolveErrorView::Integrity("name query returned an invalid object class"@))
        } else if fields.filter(bears(row, name)).len() == 0 {
            Err(
                ResolveErrorView::Integrity(
                    "provider returned a record that does not match the exact name"@,
                ),
            )
        } else if number is Some && byte_len(number->0) > 200 {
            Err(
                ResolveErrorView::Integrity("record number exceeds the lookup response bound"@),
            )
        } else {
            Ok(
                NameMatchView {
                    sys_id: id,
                    table: named_class(row, table),
                    resource_type: type_of_table(named_class(row, table)),
                    name,
                    number,
                    matched_fields: fields.filter(bears(row, name)),
                },
            )
        },
    }
}

/// The rows of a page, one behind the other.
pub open spec fn name_rows(
    rows: Seq<RowView>,
    table: Seq<char>,
    name: Seq<char>,
    fields: Seq<Seq<char>>,
    previous: Seq<char>,
) -> Result<Seq<NameMatchView>, ResolveErrorView>
    decreases rows.len(),
{
    if rows.len() == 0 {
        Ok(Seq::empty())
    } else {
        match name_rows(rows.drop_last(), table, name, fields, previous) {
            Err(e) => Err(e),
            Ok(front) => match name_row(
                rows.last(),
                table,
                name,
                fields,
                if front.len() == 0 {
                    previous
                } else {
                    front.last().sys_id
                },
            ) {
                Err(e) => Err(e),
                Ok(m) => Ok(front.push(m)),
            },
        }
    }
}

/// A page of candidates, and where the next one begins if this one was full.
pub struct NamePage {
    pub matches: Vec<RecordNameMatch>,
    pub next: Option<String>,
}

/// What a page says: every row must be a record that bears the name, each
/// behind the one before it.
pub open spec fn name_page_of(
    reply: Result<PageView, Failure>,
    table: Seq<char>,
    name: Seq<char>,
    fields: Seq<Seq<char>>,
    after: Option<Seq<char>>,
) -> Result<(Seq<NameMatchView>, Option<Seq<char>>), ResolveErrorView> {
    match reply {
        Err(_) => Err(ResolveErrorView::Unavailable("name query is unreadable"@)),
        Ok(page) => if page.partial || page.rows.len() > NAME_ROWS {
            Err(
                ResolveErrorView::Unavailable("name query returned a partial or oversized page"@),
            )
        } else {
            match name_rows(
                page.rows,
                table,
                name,
                fields,
                match after {
                    Some(a) => a,
                    None => ""@,
                },
            ) {
                Err(e) => Err(e),
                Ok(found) => Ok(
                    (
                        found,
                        if page.rows.len() == NAME_ROWS {
                            Some(page.rows.last().sys_id)
                        } else {
                            None
                        },
                    ),
                ),
            }
        },
    }
}

fn matched_fields(row: &Row, fields: &Vec<String>, name: &str) -> (r: Vec<String>)
    ensures
        texts(r@) == texts(fields@).filter(bears(row@, name@)),
{
    let ghost all = texts(fields@);
    let ghost keep = bears(row@, name@);
    let wanted: String = to_lowercase(name);
    let mut out: Vec<String> = Vec::new();
    let mut i: usize = 0;
    proof {
        reveal(Seq::filter);
        assert(all.subrange(0, 0) =~= Seq::empty());
        assert(texts(out@) =~= all.subrange(0, 0).filter(keep));
    }
    while i < fields.len()
        invariant
            i <= fields@.len(),
            all == texts(fields@),
            keep == bears(row@, name@),
            wanted@ == lowercase(name@),
            texts(out@) == all.subrange(0, i as int).filter(keep),
        decreases fields@.len() - i,
    {
        let hit: bool = match row.get_raw(fields[i].as_str()) {
            Some(v) => {
                let lowered: String = to_lowercase(v);
                lowered == wanted
            },
            None => false,
        };
        let ghost before = out@;
        if hit {
            out.push(fields[i].clone());
        }
        proof {
            let longer = all.subrange(0, i + 1);
            assert(longer.drop_last() =~= all.subrange(0, i as int));
            assert(longer.last() == fields@[i as int]@);
            reveal(Seq::filter);
            if hit {
                assert(texts(out@) =~= texts(before).push(fields@[i as int]@));
            }
        }
        i += 1;
    }
    assert(all.subrange(0, all.len() as int) =~= all);
    out
}

fn read_name_row(row: &Row, table: &str, name: &str, fields: &Vec<String>, previous: &str) -> (r:
    Result<RecordNameMatch, RecordResolveError>)
    ensures
        match r {
            Ok(m) => name_row(row@, table@, name@, texts(fields@), previous@) == Ok::<
                NameMatchView,
                ResolveErrorView,
            >(m@),
            Err(e) => name_row(row@, table@, name@, texts(fields@), previous@) == Err::<
                NameMatchView,
                ResolveErrorView,
            >(e@),
        },
{
    let id: String = match normalize_record_lookup_sys_id(row.sys_id.as_str()) {
        Ok(id) => id,
        Err(_) => return Err(integrity("name query returned an invalid sys_id")),
    };
    if !less_text(previous, id.as_str()) {
        return Err(integrity("name query returned a non-progressing page"));
    }
    let class: &str = match row.get_raw("sys_class_name") {
        Some(c) => if c.is_empty() {
            table
        } else {
            c
        },
        None => table,
    };
    if !identifier(class) {
        return Err(integrity("name query returned an invalid object class"));
    }
    let matched: Vec<String> = matched_fields(row, fields, name);
    assert(texts(matched@).len() == matched@.len());
    if matched.is_empty() {
        return Err(integrity("provider returned a record that does not match the exact name"));
    }
    let number: Option<String> = match row.get_raw("number") {
        Some(n) => if n.is_empty() {
            None
        } else {
            if byte_length(n) > 200 {
                return Err(integrity("record number exceeds the lookup response bound"));
            }
            Some(n.to_owned())
        },
        None => None,
    };
    Ok(
        RecordNameMatch {
            sys_id: id,
            table: class.to_owned(),
            resource_type: resource_type(class),
            name: name.to_owned(),
            number,
            matched_fields: matched,
        },
    )
}

/// A page that fails in one row fails, whatever follows.
proof fn lemma_rows_fail(
    rows: Seq<RowView>,
    done: int,
    table: Seq<char>,
    name: Seq<char>,
    fields: Seq<Seq<char>>,
    previous: Seq<char>,
)
    requires
        0 <= done <= rows.len(),
        name_rows(rows.subrange(0, done), table, name, fields, previous) is Err,
    ensures
        name_rows(rows, table, name, fields, previous) == name_rows(
            rows.subrange(0, done),
            table,
            name,
            fields,
            previous,
        ),
    decreases rows.len() - done,
{
    if done < rows.len() {
        let longer = rows.subrange(0, done + 1);
        assert(longer.drop_last() =~= rows.subrange(0, done));
        lemma_rows_fail(rows, done + 1, table, name, fields, previous);
    } else {
        assert(rows.subrange(0, done) =~= rows);
    }
}

/// Reads the page that answers [`name_query`].
#[verifier::loop_isolation(false)]
pub fn read_name_page(
    reply: &Result<Page, Failure>,
    table: &str,
    name: &str,
    fields: &Vec<String>,
    after: &Option<String>,
) -> (r: Result<NamePage, RecordResolveError>)
    ensures
        match name_page_of(reply_view(*reply), table@, name@, texts(fields@), text_of(*after)) {
            Err(e) => r is Err && r->Err_0@ == e,
            Ok(p) => r is Ok && match_views(r->Ok_0.matches@) == p.0 && text_of(r->Ok_0.next)
                == p.1,
        },
{
    let page: &Page = match reply {
        Ok(page) => page,
        Err(_) => return Err(unavailable("name query is unreadable")),
    };
    if page.partial || page.rows.len() > NAME_ROWS as usize {
        return Err(unavailable("name query returned a partial or oversized page"));
    }
    let mut previous: String = match after {
        Some(a) => a.clone(),
        None => "".to_owned(),
    };
    let ghost start = previous@;
    let ghost rows = page@.rows;
    let ghost wanted = texts(fields@);
    let mut matches: Vec<RecordNameMatch> = Vec::new();
    let mut i: usize = 0;
    assert(match_views(matches@) =~= Seq::empty());
    while i < page.rows.len()
        invariant
            i <= page.rows@.len(),
            matches@.len() == i,
            name_rows(rows.subrange(0, i as int), table@, name@, wanted, start) == Ok::<
                Seq<NameMatchView>,
                ResolveErrorView,
            >(match_views(matches@)),
            previous@ == (if i == 0 {
                start
            } else {
                match_views(matches@).last().sys_id
            }),
        decreases page.rows@.len() - i,
    {
        let ghost longer = rows.subrange(0, i + 1);
        proof {
            assert(longer.drop_last() =~= rows.subrange(0, i as int));
            assert(longer.last() == page.rows@[i as int]@);
        }
        match read_name_row(&page.rows[i], table, name, fields, previous.as_str()) {
            Err(e) => {
                proof {
                    assert(name_rows(longer, table@, name@, wanted, start) == Err::<
                        Seq<NameMatchView>,
                        ResolveErrorView,
                    >(e@));
                    lemma_rows_fail(rows, i + 1, table@, name@, wanted, start);
                }
                return Err(e);
            },
            Ok(m) => {
                previous = m.sys_id.clone();
                let ghost before = matches@;
                matches.push(m);
                assert(match_views(matches@) =~= match_views(before).push(m@));
            },
        }
        i += 1;
    }
    assert(rows.subrange(0, rows.len() as int) =~= rows);
    let next: Option<String> = if page.rows.len() == NAME_ROWS as usize {
        assert(rows.last() == page.rows@[page.rows@.len() - 1]@);
        Some(page.rows[page.rows.len() - 1].sys_id.clone())
    } else {
        None
    };
    Ok(NamePage { matches, next })
}

/// The candidates of a page come in ascending order of their sys_ids, behind
/// the row that the page follows.
pub proof fn name_pages_ascend(
    rows: Seq<RowView>,
    table: Seq<char>,
    name: Seq<char>,
    fields: Seq<Seq<char>>,
    previous: Seq<char>,
)
    requires
        name_rows(rows, table, name, fields, previous) is Ok,
    ensures
        ({
            let found = name_rows(rows, table, name, fields, previous)->Ok_0;
            &&& found.len() == rows.len()
            &&& forall|i: int|
                0 <= i < found.len() ==> text_less(previous, (#[trigger] found[i]).sys_id)
            &&& forall|i: int, j: int|
                0 <= i < j < found.len() ==> text_less(
                    (#[trigger] found[i]).sys_id,
                    (#[trigger] found[j]).sys_id,
                )
        }),
    decreases rows.len(),
{
    if rows.len() > 0 {
        name_pages_ascend(rows.drop_last(), table, name, fields, previous);
        let front = name_rows(rows.drop_last(), table, name, fields, previous)->Ok_0;
        let found = name_rows(rows, table, name, fields, previous)->Ok_0;
        let last = found.last().sys_id;
        if front.len() > 0 {
            let f = front.last();
            assert(front[front.len() - 1] == f);
            assert forall|i: int| 0 <= i < front.len() implies text_less(
                (#[trigger] front[i]).sys_id,
                last,
            ) by {
                if i < front.len() - 1 {
                    crate::text::lemma_text_less_transitive(front[i].sys_id, f.sys_id, last);
                }
            }
            crate::text::lemma_text_less_transitive(previous, f.sys_id, last);
        }
        assert forall|i: int| 0 <= i < found.len() implies text_less(
            previous,
            (#[trigger] found[i]).sys_id,
        ) by {
            if i < front.len() {
                assert(found[i] == front[i]);
            }
        }
        assert forall|i: int, j: int| 0 <= i < j < found.len() implies text_less(
            (#[trigger] found[i]).sys_id,
            (#[trigger] found[j]).sys_id,
        ) by {
            assert(found[i] == front[i]);
            if j < front.len() {
                assert(found[j] == front[j]);
            }
        }
    }
}

} // verus!
