//! The display field of a table: its own definition, or else that of the
//! nearest ancestor that has one. A definition that cannot be settled leaves the
//! field unknown and the metadata incomplete.
use vstd::prelude::*;
use vstd::string::*;

use crate::query::{Query, QueryView};
use crate::record_types::reply_view;
use crate::row::{row_views, Failure, Page, PageView, Row, RowView};
use crate::text::{identifier, is_identifier, list_has, same, text_of, texts};

verus! {

/// What is known of a table's display field.
pub struct DisplayField {
    pub field: Option<String>,
    /// Whether the metadata was complete enough to tell.
    pub complete: bool,
}

pub struct DisplayFieldView {
    pub field: Option<Seq<char>>,
    pub complete: bool,
}

impl View for DisplayField {
    type V = DisplayFieldView;

    open spec fn view(&self) -> DisplayFieldView {
        DisplayFieldView { field: text_of(self.field), complete: self.complete }
    }
}

pub open spec fn unknown() -> DisplayFieldView {
    DisplayFieldView { field: None, complete: false }
}

/// A table that is known to have no display field.
pub open spec fn no_display() -> DisplayFieldView {
    DisplayFieldView { field: None, complete: true }
}

/// What one dictionary row settles.
pub open spec fn defined_by(row: RowView) -> DisplayFieldView {
    DisplayFieldView { field: row.raw("element"@), complete: row.raw("element"@) is Some }
}

fn read_definition(row: &Row) -> (r: DisplayField)
    ensures
        r@ == defined_by(row@),
{
    match row.get_raw("element") {
        Some(e) => DisplayField { field: Some(e.to_owned()), complete: true },
        None => DisplayField { field: None, complete: false },
    }
}

pub open spec fn own_query_of(table: Seq<char>) -> QueryView {
    QueryView::of("sys_dictionary"@).field("element"@).equals("name"@, table).equals(
        "display"@,
        "true"@,
    ).limit(2).no_count()
}

pub fn own_query(table: &str) -> (q: Query)
    ensures
        q@ == own_query_of(table@),
{
    Query::of("sys_dictionary").field("element").equals("name", table).equals(
        "display",
        "true",
    ).limit(2).no_count()
}

/// What the table's own definitions settle; `None` asks the ancestors.
pub open spec fn own_display_of(reply: Result<PageView, Failure>) -> Option<DisplayFieldView> {
    match reply {
        Err(_) => Some(unknown()),
        Ok(page) => if page.partial || page.rows.len() > 1 {
            Some(unknown())
        } else if page.rows.len() == 1 {
            Some(defined_by(page.rows[0]))
        } else {
            None
        },
    }
}

pub fn own_display(reply: &Result<Page, Failure>) -> (r: Option<DisplayField>)
    ensures
        match r {
            Some(d) => own_display_of(reply_view(*reply)) == Some(d@),
            None => own_display_of(reply_view(*reply)) is None,
        },
{
    let page: &Page = match reply {
        Ok(page) => page,
        Err(_) => return Some(DisplayField { field: None, complete: false }),
    };
    if page.partial || page.rows.len() > 1 {
        return Some(DisplayField { field: None, complete: false });
    }
    if page.rows.len() == 1 {
        assert(page@.rows[0] == page.rows@[0]@);
        return Some(read_definition(&page.rows[0]));
    }
    None
}

/// How far up the ancestors are read.
pub const MAX_DEPTH: usize = 16;

/// The field that holds the name of the ancestor `depth` levels up.
pub open spec fn ancestor_path(depth: nat) -> Seq<char>
    decreases depth,
{
    if depth == 0 {
        "name"@
    } else {
        "super_class."@ + ancestor_path((depth - 1) as nat)
    }
}

pub open spec fn ancestor_paths() -> Seq<Seq<char>> {
    Seq::new(16, |i: int| ancestor_path((i + 1) as nat))
}

fn path_texts() -> (r: Vec<String>)
    ensures
        texts(r@) == ancestor_paths(),
        r@.len() == 16,
{
    let mut out: Vec<String> = Vec::new();
    let mut last: String = "name".to_owned();
    let mut i: usize = 0;
    while i < MAX_DEPTH
        invariant
            i <= 16,
            out@.len() == i,
            last@ == ancestor_path(i as nat),
            forall|k: int| 0 <= k < i ==> (#[trigger] out@[k])@ == ancestor_path((k + 1) as nat),
        decreases 16 - i,
    {
        let mut path: String = "super_class.".to_owned();
        path.append(last.as_str());
        last = path.clone();
        out.push(path);
        i += 1;
    }
    assert(texts(out@) =~= ancestor_paths());
    out
}

pub open spec fn ancestry_query_of(table: Seq<char>) -> QueryView {
    QueryView::of("sys_db_object"@).field("name"@).field("super_class"@).walk(
        ancestor_paths(),
    ).equals("name"@, table).limit(2).no_count()
}

pub fn ancestry_query(table: &str) -> (q: Query)
    ensures
        q@ == ancestry_query_of(table@),
{
    let paths: Vec<String> = path_texts();
    Query::of("sys_db_object").field("name").field("super_class").walk(&paths).equals(
        "name",
        table,
    ).limit(2).no_count()
}

/// The ancestors of a table from the nearest up, read from level `from` on; the
/// chain must end within the depth, go through identifiers and not come back.
pub open spec fn chain_from(
    row: RowView,
    table: Seq<char>,
    found: Seq<Seq<char>>,
    from: nat,
) -> Option<Seq<Seq<char>>>
    decreases 16 - from,
{
    if from >= 16 {
        None
    } else {
        match row.raw(ancestor_path(from + 1)) {
            Some(p) => if p == ""@ {
                Some(found)
            } else if is_identifier(p) && p != table && !found.contains(p) {
                chain_from(row, table, found.push(p), from + 1)
            } else {
                None
            },
            None => None,
        }
    }
}

/// What the catalog entry of a table says of its ancestors: the answer itself,
/// or the ancestors whose definitions decide.
pub enum Ancestry {
    Known(DisplayField),
    Ask { parents: Vec<String> },
}

pub open spec fn ancestry_of(table: Seq<char>, reply: Result<PageView, Failure>) -> Result<
    Seq<Seq<char>>,
    DisplayFieldView,
> {
    match reply {
        Err(_) => Err(unknown()),
        Ok(page) => if page.partial || page.rows.len() != 1 {
            Err(unknown())
        } else if page.rows[0].raw("name"@) != Some(table) {
            Err(unknown())
        } else if page.rows[0].raw("super_class"@) == Some(""@) {
            Err(no_display())
        } else {
            match chain_from(page.rows[0], table, Seq::empty(), 0) {
                Some(parents) if parents.len() > 0 => Ok(parents),
                _ => Err(unknown()),
            }
        },
    }
}

fn incomplete() -> (r: Ancestry)
    ensures
        r matches Ancestry::Known(d) && d@ == unknown(),
{
    Ancestry::Known(DisplayField { field: None, complete: false })
}

/// Reads the ancestors of a table.
#[verifier::loop_isolation(false)]
pub fn read_ancestry(table: &str, reply: &Result<Page, Failure>) -> (r: Ancestry)
    ensures
        match r {
            Ancestry::Known(d) => ancestry_of(table@, reply_view(*reply)) == Err::<
                Seq<Seq<char>>,
                DisplayFieldView,
            >(d@),
            Ancestry::Ask { parents } => ancestry_of(table@, reply_view(*reply)) == Ok::<
                Seq<Seq<char>>,
                DisplayFieldView,
            >(texts(parents@)),
        },
{
    let page: &Page = match reply {
        Ok(page) => page,
        Err(_) => return incomplete(),
    };
    if page.partial || page.rows.len() != 1 {
        return incomplete();
    }
    assert(page@.rows[0] == page.rows@[0]@);
    let row: &Row = &page.rows[0];
    let named: bool = match row.get_raw("name") {
        Some(n) => same(n, table),
        None => false,
    };
    if !named {
        return incomplete();
    }
    if let Some(s) = row.get_raw("super_class") {
        if same(s, "") {
            return Ancestry::Known(DisplayField { field: None, complete: true });
        }
    }
    let paths: Vec<String> = path_texts();
    let mut parents: Vec<String> = Vec::new();
    let mut i: usize = 0;
    assert(texts(parents@) =~= Seq::empty());
    while i < MAX_DEPTH
        invariant
            i <= 16,
            paths@.len() == 16,
            chain_from(row@, table@, Seq::empty(), 0) == chain_from(
                row@,
                table@,
                texts(parents@),
                i as nat,
            ),
        decreases 16 - i,
    {
        assert(paths@[i as int]@ == texts(paths@)[i as int]);
        assert(paths@[i as int]@ == ancestor_path((i + 1) as nat));
        let parent: &str = match row.get_raw(paths[i].as_str()) {
            Some(p) => p,
            None => return incomplete(),
        };
        if same(parent, "") {
            return if parents.is_empty() {
                incomplete()
            } else {
                Ancestry::Ask { parents }
            };
        }
        if !identifier(parent) || same(parent, table) || list_has(&parents, parent) {
            return incomplete();
        }
        let ghost before = parents@;
        parents.push(parent.to_owned());
        assert(texts(parents@) =~= texts(before).push(parent@));
        i += 1;
    }
    incomplete()
}

pub open spec fn inherited_query_of(parents: Seq<Seq<char>>) -> QueryView {
    let q = QueryView::of("sys_dictionary"@).field("name"@).field("element"@);
    let named = if parents.len() == 1 {
        q.equals("name"@, parents[0])
    } else {
        q.in_list("name"@, parents)
    };
    named.equals("display"@, "true"@).limit(17).no_count()
}

pub fn inherited_query(parents: &Vec<String>) -> (q: Query)
    ensures
        q@ == inherited_query_of(texts(parents@)),
{
    let base: Query = Query::of("sys_dictionary").field("name").field("element");
    let named: Query = if parents.len() == 1 {
        assert(texts(parents@)[0] == parents@[0]@);
        base.equals("name", parents[0].as_str())
    } else {
        base.in_list("name", parents)
    };
    named.equals("display", "true").limit(17).no_count()
}

pub open spec fn of_table(table: Seq<char>) -> spec_fn(RowView) -> bool {
    |row: RowView| row.raw("name"@) == Some(table)
}

/// The definition of the nearest ancestor that has one, from `from` on.
pub open spec fn nearest_definition(
    parents: Seq<Seq<char>>,
    rows: Seq<RowView>,
    from: int,
) -> DisplayFieldView
    decreases parents.len() - from,
{
    if from < 0 || from >= parents.len() {
        no_display()
    } else {
        let own = rows.filter(of_table(parents[from]));
        if own.len() > 1 {
            unknown()
        } else if own.len() == 1 {
            defined_by(own[0])
        } else {
            nearest_definition(parents, rows, from + 1)
        }
    }
}

pub open spec fn inherited_display_of(
    parents: Seq<Seq<char>>,
    reply: Result<PageView, Failure>,
) -> DisplayFieldView {
    match reply {
        Err(_) => unknown(),
        Ok(page) => if page.partial || page.rows.len() >= 17 {
            unknown()
        } else {
            nearest_definition(parents, page.rows, 0)
        },
    }
}

/// How many rows are of a table, and the first of them.
fn rows_of(rows: &Vec<Row>, table: &str) -> (r: (usize, usize))
    ensures
        r.0 == row_views(rows@).filter(of_table(table@)).len(),
        r.0 > 0 ==> r.1 < rows@.len() && row_views(rows@).filter(of_table(table@))[0]
            == rows@[r.1 as int]@,
{
    let ghost all = row_views(rows@);
    let ghost keep = of_table(table@);
    let mut count: usize = 0;
    let mut first: usize = 0;
    let mut i: usize = 0;
    proof {
        reveal(Seq::filter);
        assert(all.subrange(0, 0) =~= Seq::empty());
    }
    while i < rows.len()
        invariant
            i <= rows@.len(),
            count <= i,
            all == row_views(rows@),
            keep == of_table(table@),
            count == all.subrange(0, i as int).filter(keep).len(),
            count > 0 ==> first < rows@.len() && all.subrange(0, i as int).filter(keep)[0]
                == rows@[first as int]@,
        decreases rows@.len() - i,
    {
        let hit: bool = match rows[i].get_raw("name") {
            Some(n) => same(n, table),
            None => false,
        };
        proof {
            let longer = all.subrange(0, i + 1);
            assert(longer.drop_last() =~= all.subrange(0, i as int));
            assert(longer.last() == rows@[i as int]@);
            reveal(Seq::filter);
        }
        if hit {
            if count == 0 {
                first = i;
            }
            count += 1;
        }
        i += 1;
    }
    assert(all.subrange(0, all.len() as int) =~= all);
    (count, first)
}

/// Reads the definitions of the ancestors: the nearest one that has exactly one
/// decides.
#[verifier::loop_isolation(false)]
pub fn inherited_display(parents: &Vec<String>, reply: &Result<Page, Failure>) -> (r: DisplayField)
    ensures
        r@ == inherited_display_of(texts(parents@), reply_view(*reply)),
{
    let page: &Page = match reply {
        Ok(page) => page,
        Err(_) => return DisplayField { field: None, complete: false },
    };
    if page.partial || page.rows.len() >= 17 {
        return DisplayField { field: None, complete: false };
    }
    let mut i: usize = 0;
    while i < parents.len()
        invariant
            i <= parents@.len(),
            nearest_definition(texts(parents@), page@.rows, 0) == nearest_definition(
                texts(parents@),
                page@.rows,
                i as int,
            ),
        decreases parents@.len() - i,
    {
        assert(texts(parents@)[i as int] == parents@[i as int]@);
        let (count, first): (usize, usize) = rows_of(&page.rows, parents[i].as_str());
        if count > 1 {
            return DisplayField { field: None, complete: false };
        }
        if count == 1 {
            return read_definition(&page.rows[first]);
        }
        i += 1;
    }
    DisplayField { field: None, complete: true }
}

/// A chain of ancestors names each table once, and never the table itself.
pub proof fn chains_do_not_come_back(
    row: RowView,
    table: Seq<char>,
    found: Seq<Seq<char>>,
    from: nat,
)
    requires
        chain_from(row, table, found, from) is Some,
        found.no_duplicates(),
        !found.contains(table),
    ensures
        chain_from(row, table, found, from)->0.no_duplicates(),
        !chain_from(row, table, found, from)->0.contains(table),
        chain_from(row, table, found, from)->0.len() < found.len() + 16 - from,
    decreases 16 - from,
{
    let p = row.raw(ancestor_path(from + 1))->0;
    if p != ""@ {
        crate::record_name_resolver::lemma_push_distinct(found, p);
        assert(!found.push(p).contains(table)) by {
            if found.push(p).contains(table) {
                let k = choose|k: int| 0 <= k < found.len() + 1 && found.push(p)[k] == table;
                if k < found.len() {
                    assert(found[k] == table);
                }
            }
        }
        chains_do_not_come_back(row, table, found.push(p), from + 1);
    }
}

} // verus!
