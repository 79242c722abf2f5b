//! Pages of the table catalog. They list table names in ascending order; a page
//! that does not go on behind the last one is refused.
use vstd::prelude::*;

use crate::listing::{ascending};
use crate::record_error::{integrity, RecordResolveError, ResolveErrorView};
use crate::row::{row_views, Row, RowView};
use crate::text::{
    identifier, is_identifier, lemma_text_less_transitive, less_text, name_listed, names_of,
    text_less, texts,
};

verus! {

pub open spec fn no_name(named: bool) -> ResolveErrorView {
    if named {
        ResolveErrorView::Integrity("table catalog omitted a table name"@)
    } else {
        no_progress()
    }
}

pub open spec fn no_progress() -> ResolveErrorView {
    ResolveErrorView::Integrity("table catalog returned an invalid or non-progressing name"@)
}

/// Why a page is refused that should go on behind `after`. A missing name is
/// reported by itself where `named` is set.
pub open spec fn catalog_failure(after: Seq<char>, rows: Seq<RowView>, named: bool) -> Option<
    ResolveErrorView,
>
    decreases rows.len(),
{
    if rows.len() == 0 {
        None
    } else {
        match rows[0].raw("name"@) {
            None => Some(no_name(named)),
            Some(n) => if !is_identifier(n) || !text_less(after, n) {
                Some(no_progress())
            } else {
                catalog_failure(n, rows.subrange(1, rows.len() as int), named)
            },
        }
    }
}

pub open spec fn catalog_names(rows: Seq<RowView>) -> Seq<Seq<char>> {
    rows.map_values(|r: RowView| r.raw("name"@)->0)
}

/// The last name that was seen once a page has been read.
pub open spec fn last_name(after: Seq<char>, rows: Seq<RowView>) -> Seq<char> {
    if rows.len() == 0 {
        after
    } else {
        rows.last().raw("name"@)->0
    }
}

pub open spec fn not_listed(names: Seq<Seq<char>>) -> spec_fn(Seq<char>) -> bool {
    |n: Seq<char>| !names.contains(n)
}

/// The names on a page that are not among the tables that were asked first.
pub open spec fn new_names(rows: Seq<RowView>, first: Seq<Seq<char>>) -> Seq<Seq<char>> {
    catalog_names(rows).filter(not_listed(first))
}

/// A page that is accepted lists identifiers in ascending order, all of them
/// behind the last name that was seen.
pub proof fn catalog_pages_ascend(after: Seq<char>, rows: Seq<RowView>, named: bool)
    requires
        catalog_failure(after, rows, named) is None,
    ensures
        ascending(catalog_names(rows)),
        forall|i: int|
            0 <= i < rows.len() ==> text_less(after, #[trigger] catalog_names(rows)[i]),
        forall|i: int| 0 <= i < rows.len() ==> is_identifier(#[trigger] catalog_names(rows)[i]),
    decreases rows.len(),
{
    if rows.len() > 0 {
        let rest = rows.subrange(1, rows.len() as int);
        let n = rows[0].raw("name"@)->0;
        catalog_pages_ascend(n, rest, named);
        let names = catalog_names(rows);
        assert forall|i: int| 0 < i < rows.len() implies names[i] == #[trigger] catalog_names(
            rest,
        )[i - 1] by {}
        assert forall|i: int| 0 <= i < rows.len() implies text_less(after, #[trigger] names[i]) by {
            if i > 0 {
                assert(names[i] == catalog_names(rest)[i - 1]);
                lemma_text_less_transitive(after, n, names[i]);
            }
        }
        assert forall|i: int| 0 <= i < rows.len() implies is_identifier(#[trigger] names[i]) by {
            if i > 0 {
                assert(names[i] == catalog_names(rest)[i - 1]);
            }
        }
        assert forall|i: int, j: int| 0 <= i < j < names.len() implies text_less(
            #[trigger] names[i],
            #[trigger] names[j],
        ) by {
            assert(names[j] == catalog_names(rest)[j - 1]);
            if i > 0 {
                assert(names[i] == catalog_names(rest)[i - 1]);
            }
        }
    }
}

/// Reads a page: the names are put behind those that wait already, and the last
/// one is remembered.
#[verifier::loop_isolation(false)]
pub fn read_catalog<const N: usize>(
    pending: &mut Vec<String>,
    after: &mut String,
    rows: &Vec<Row>,
    first: &[&'static str; N],
    named: bool,
) -> (r: Result<(), RecordResolveError>)
    ensures
        match catalog_failure(old(after)@, row_views(rows@), named) {
            Some(e) => r is Err && r->Err_0@ == e,
            None => r is Ok && texts(final(pending)@) == texts(old(pending)@) + new_names(
                row_views(rows@),
                names_of(first@),
            ) && final(after)@ == last_name(old(after)@, row_views(rows@)),
        },
{
    let ghost all = row_views(rows@);
    let ghost names = catalog_names(all);
    let ghost keep = not_listed(names_of(first@));
    let ghost waiting = texts(pending@);
    let ghost start = after@;
    let mut i: usize = 0;
    proof {
        assert(all.subrange(0, all.len() as int) =~= all);
        assert(names.subrange(0, 0) =~= Seq::empty());
        reveal(Seq::filter);
        assert(waiting + names.subrange(0, 0).filter(keep) =~= waiting);
    }
    while i < rows.len()
        invariant
            i <= rows@.len(),
            catalog_failure(start, all, named) == catalog_failure(
                after@,
                all.subrange(i as int, all.len() as int),
                named,
            ),
            after@ == last_name(start, all.subrange(0, i as int)),
            texts(pending@) == waiting + names.subrange(0, i as int).filter(keep),
        decreases rows@.len() - i,
    {
        let ghost rest = all.subrange(i as int, all.len() as int);
        assert(rest[0] == rows@[i as int]@);
        let name: &str = match rows[i].get_raw("name") {
            Some(n) => n,
            None => {
                return Err(
                    if named {
                        integrity("table catalog omitted a table name")
                    } else {
                        integrity("table catalog returned an invalid or non-progressing name")
                    },
                );
            },
        };
        if !identifier(name) || !less_text(after.as_str(), name) {
            return Err(integrity("table catalog returned an invalid or non-progressing name"));
        }
        *after = name.to_owned();
        let ghost before = pending@;
        let listed: bool = name_listed(first, name);
        if !listed {
            pending.push(name.to_owned());
        }
        proof {
            let longer = names.subrange(0, i + 1);
            assert(longer.drop_last() =~= names.subrange(0, i as int));
            assert(longer.last() == name@);
            reveal(Seq::filter);
            if !listed {
                assert(texts(pending@) =~= texts(before).push(name@));
                assert(texts(before).push(name@) =~= waiting + longer.filter(keep));
            }
            assert(rest.subrange(1, rest.len() as int) =~= all.subrange(i + 1, all.len() as int));
            assert(all.subrange(0, i + 1).last() == all[i as int]);
        }
        i += 1;
    }
    proof {
        assert(all.subrange(0, all.len() as int) =~= all);
        assert(names.subrange(0, names.len() as int) =~= names);
    }
    Ok(())
}

} // verus!
