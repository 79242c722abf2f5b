//! From a record number to its record. The tables that the number's prefix
//! leads to are asked in turn; all that answer must mean the same record.
use vstd::prelude::*;
use vstd::string::*;

use crate::query::{DisplayMode, Query, QueryView};
use crate::record_error::{
    actual_table, class_of, integrity, invalid, unavailable, RecordResolveError, ResolveErrorView,
};
use crate::record_types::{literal, literal_of, reply_view, TypeTables};
use crate::row::{row_views, Failure, Page, PageView, Row, RowView};
use crate::text::{
    all_chars, all_word, chars_of, identifier, is_digit, is_identifier, is_word, same,
    slice_string, texts, upper, upper_text,
};

verus! {

/// A record number: at most 80 letters, digits and underscores, with a digit at the end.
pub open spec fn is_record_number(s: Seq<char>) -> bool {
    0 < s.len() <= 80 && all_chars(s, |c: char| is_word(c)) && is_digit(s.last())
}

/// The text without the digits at its end.
pub open spec fn without_digits(s: Seq<char>) -> Seq<char>
    decreases s.len(),
{
    if s.len() > 0 && is_digit(s.last()) {
        without_digits(s.drop_last())
    } else {
        s
    }
}

/// The number in its usual spelling, if it is one and has a prefix.
pub open spec fn number_of(value: Seq<char>) -> Result<Seq<char>, ResolveErrorView> {
    match literal_of(value) {
        Err(e) => Err(e),
        Ok(s) => if !is_record_number(upper(s)) {
            Err(ResolveErrorView::InvalidParams("number must be a ServiceNow record number"@))
        } else if without_digits(upper(s)).len() == 0 {
            Err(ResolveErrorView::InvalidParams("record number requires a prefix"@))
        } else {
            Ok(upper(s))
        },
    }
}

/// A number and its prefix.
pub struct NumberSelector {
    pub number: String,
    pub prefix: String,
}

/// Reads a record number. A scope, where one is given, must be a table identifier.
pub fn number_selector(number: &str, scope: &Option<String>) -> (r: Result<
    NumberSelector,
    RecordResolveError,
>)
    ensures
        match number_of(number@) {
            Err(e) => r is Err && r->Err_0@ == e,
            Ok(n) => if scope is Some && !is_identifier(scope->0@) {
                r is Err && r->Err_0@ == ResolveErrorView::InvalidParams("invalid table scope"@)
            } else {
                r is Ok && r->Ok_0.number@ == n && r->Ok_0.prefix@ == without_digits(n)
            },
        },
{
    let text: String = match literal(number) {
        Ok(s) => s,
        Err(e) => return Err(e),
    };
    let number: String = upper_text(text.as_str());
    let v: Vec<char> = chars_of(number.as_str());
    if v.len() == 0 || v.len() > 80 || !all_word(&v) || !('0' <= v[v.len() - 1] && v[v.len() - 1]
        <= '9') {
        return Err(invalid("number must be a ServiceNow record number"));
    }
    let mut n: usize = v.len();
    assert(v@.subrange(0, n as int) =~= v@);
    while n > 0 && '0' <= v[n - 1] && v[n - 1] <= '9'
        invariant
            n <= v@.len(),
            without_digits(v@) == without_digits(v@.subrange(0, n as int)),
        decreases n,
    {
        assert(v@.subrange(0, n as int).drop_last() =~= v@.subrange(0, n - 1));
        n -= 1;
    }
    let prefix: String = slice_string(&v, 0, n);
    if n == 0 {
        return Err(invalid("record number requires a prefix"));
    }
    if let Some(table) = scope {
        if !identifier(table.as_str()) {
            return Err(invalid("invalid table scope"));
        }
    }
    Ok(NumberSelector { number, prefix })
}

/// A row of a parent class whose actual class has to be read.
pub struct ClassRead {
    pub table: String,
    pub sys_id: String,
}

/// A number lookup under way. The first `next` tables have answered.
pub struct NumberLookup {
    pub number: String,
    pub tables: Vec<String>,
    pub next: usize,
    pub mapping_error: Option<RecordResolveError>,
    pub found: Option<Row>,
    pub class_read: Option<ClassRead>,
}

pub struct ClassReadView {
    pub table: Seq<char>,
    pub sys_id: Seq<char>,
}

pub struct NumberLookupView {
    pub number: Seq<char>,
    pub tables: Seq<Seq<char>>,
    pub next: int,
    pub mapping_error: Option<ResolveErrorView>,
    pub found: Option<RowView>,
    pub class_read: Option<ClassReadView>,
}

impl View for NumberLookup {
    type V = NumberLookupView;

    open spec fn view(&self) -> NumberLookupView {
        NumberLookupView {
            number: self.number@,
            tables: texts(self.tables@),
            next: self.next as int,
            mapping_error: match self.mapping_error {
                Some(e) => Some(e@),
                None => None,
            },
            found: match self.found {
                Some(row) => Some(row@),
                None => None,
            },
            class_read: match self.class_read {
                Some(c) => Some(ClassReadView { table: c.table@, sys_id: c.sys_id@ }),
                None => None,
            },
        }
    }
}

impl NumberLookupView {
    /// What the lookup has found carries the number, and a class is read only
    /// for a table that is still open.
    pub open spec fn well_formed(self) -> bool {
        &&& 0 <= self.next <= self.tables.len()
        &&& self.class_read is Some ==> self.next < self.tables.len()
        &&& self.found is Some ==> self.found->0.raw("number"@) == Some(self.number)
        &&& self.found is Some ==> class_of(self.found->0) is Ok
    }

    pub open spec fn query(self) -> QueryView {
        QueryView::of(self.tables[self.next]).equals("number"@, self.number).display(
            DisplayMode::Both,
        ).limit(2).no_count()
    }

    /// A row that is known to be of its actual class joins what was found.
    pub open spec fn accept(self, row: RowView) -> Result<NumberLookupView, ResolveErrorView> {
        if self.found is Some && self.found->0.sys_id != row.sys_id {
            Err(ResolveErrorView::Integrity("record number matches multiple types"@))
        } else {
            Ok(
                NumberLookupView {
                    found: Some(row),
                    next: self.next + 1,
                    class_read: None,
                    ..self
                },
            )
        }
    }

    /// After the answer of the table at `next`.
    pub open spec fn after_page(self, reply: Result<PageView, Failure>) -> Result<
        NumberLookupView,
        ResolveErrorView,
    > {
        match reply {
            Err(_) => Err(ResolveErrorView::Unavailable("number lookup table is unreadable"@)),
            Ok(page) => if page.partial || page.rows.len() > 1 {
                Err(
                    ResolveErrorView::Integrity(
                        "record number is ambiguous or provider returned a partial page"@,
                    ),
                )
            } else if page.rows.len() == 0 {
                Ok(NumberLookupView { next: self.next + 1, ..self })
            } else if page.rows[0].raw("number"@) != Some(self.number) {
                Err(ResolveErrorView::Integrity("number lookup returned an unrelated record"@))
            } else {
                match class_of(page.rows[0]) {
                    Err(e) => Err(e),
                    Ok(class) => if class == self.tables[self.next] {
                        self.accept(page.rows[0])
                    } else {
                        Ok(
                            NumberLookupView {
                                class_read: Some(
                                    ClassReadView { table: class, sys_id: page.rows[0].sys_id },
                                ),
                                ..self
                            },
                        )
                    },
                }
            },
        }
    }

    /// After the row of the actual class was read.
    pub open spec fn after_class(self, reply: Result<RowView, Failure>) -> Result<
        NumberLookupView,
        ResolveErrorView,
    > {
        match reply {
            Err(_) => Err(ResolveErrorView::Unavailable("number's actual class is unreadable"@)),
            Ok(row) => if row.sys_id != self.class_read->0.sys_id || row.raw("number"@) != Some(
                self.number,
            ) {
                Err(ResolveErrorView::Integrity("record changed during number resolution"@))
            } else {
                match class_of(row) {
                    Err(e) => Err(e),
                    Ok(class) => if class != self.class_read->0.table {
                        Err(
                            ResolveErrorView::Integrity("record changed during number resolution"@),
                        )
                    } else {
                        self.accept(row)
                    },
                }
            },
        }
    }
}

/// Agreement of the lookup's next state with a stated one.
pub open spec fn lookup_result(
    r: Result<NumberLookup, RecordResolveError>,
    s: Result<NumberLookupView, ResolveErrorView>,
) -> bool {
    match r {
        Ok(next) => s == Ok::<NumberLookupView, ResolveErrorView>(next@),
        Err(e) => s == Err::<NumberLookupView, ResolveErrorView>(e@),
    }
}

pub open spec fn row_reply(reply: Result<Row, Failure>) -> Result<RowView, Failure> {
    match reply {
        Ok(row) => Ok(row@),
        Err(f) => Err(f),
    }
}

/// What the lookup does next.
pub enum NumberAction {
    Ask(Query),
    ReadClass { table: String, sys_id: String },
    Finish,
}

/// A lookup starts over the tables that the prefix led to. Prefix metadata that
/// contradicts itself ends the lookup; where it led nowhere, or could not be
/// read, the parent of all tasks is asked.
pub open spec fn number_started(
    number: Seq<char>,
    mapping: Result<TypeTables, RecordResolveError>,
    r: Result<NumberLookup, RecordResolveError>,
) -> bool {
    match mapping {
        Err(RecordResolveError::Integrity(_)) => r is Err && r->Err_0 == mapping->Err_0,
        Err(RecordResolveError::InvalidParams(_)) => r is Err && r->Err_0
            == mapping->Err_0,
        _ => r is Ok && r->Ok_0@.well_formed() && r->Ok_0@ == (NumberLookupView {
            number,
            tables: if mapping is Ok && mapping->Ok_0.tables@.len() > 0 {
                texts(mapping->Ok_0.tables@)
            } else {
                seq!["task"@]
            },
            next: 0,
            mapping_error: match mapping {
                Err(e) => Some(e@),
                Ok(_) => None,
            },
            found: None,
            class_read: None,
        }),
    }
}

impl NumberLookup {
    /// Starts over the tables that the prefix led to. Prefix metadata that
    /// contradicts itself ends the lookup; where it led nowhere, or could not be
    /// read, the parent of all tasks is asked.
    pub fn start(number: String, mapping: Result<TypeTables, RecordResolveError>) -> (r: Result<
        NumberLookup,
        RecordResolveError,
    >)
        ensures
            number_started(number@, mapping, r),
    {
        let mut task: Vec<String> = Vec::new();
        task.push("task".to_owned());
        assert(texts(task@) =~= seq!["task"@]);
        let (tables, mapping_error): (Vec<String>, Option<RecordResolveError>) = match mapping {
            Ok(t) => if t.tables.is_empty() {
                (task, None)
            } else {
                (t.tables, None)
            },
            Err(RecordResolveError::Integrity(m)) => return Err(RecordResolveError::Integrity(m)),
            Err(RecordResolveError::InvalidParams(m)) => return Err(
                RecordResolveError::InvalidParams(m),
            ),
            Err(e) => (task, Some(e)),
        };
        Ok(
            NumberLookup {
                number,
                tables,
                next: 0,
                mapping_error,
                found: None,
                class_read: None,
            },
        )
    }

    pub fn action(&self) -> (r: NumberAction)
        requires
            self@.well_formed(),
        ensures
            match r {
                NumberAction::ReadClass { table, sys_id } => self@.class_read == Some(
                    ClassReadView { table: table@, sys_id: sys_id@ },
                ),
                NumberAction::Ask(q) => self@.class_read is None && self@.next
                    < self@.tables.len() && q@ == self@.query(),
                NumberAction::Finish => self@.class_read is None && self@.next
                    == self@.tables.len(),
            },
    {
        if let Some(c) = &self.class_read {
            return NumberAction::ReadClass { table: c.table.clone(), sys_id: c.sys_id.clone() };
        }
        if self.next < self.tables.len() {
            assert(self@.tables[self.next as int] == self.tables@[self.next as int]@);
            NumberAction::Ask(
                Query::of(self.tables[self.next].as_str()).equals(
                    "number",
                    self.number.as_str(),
                ).display(DisplayMode::Both).limit(2).no_count(),
            )
        } else {
            NumberAction::Finish
        }
    }

    fn accept(self, row: Row) -> (r: Result<NumberLookup, RecordResolveError>)
        requires
            self@.well_formed(),
            self@.next < self@.tables.len(),
            row@.raw("number"@) == Some(self@.number),
            class_of(row@) is Ok,
        ensures
            lookup_result(r, self@.accept(row@)),
            r is Ok ==> r->Ok_0@.well_formed(),
    {
        if let Some(other) = &self.found {
            if !same(other.sys_id.as_str(), row.sys_id.as_str()) {
                return Err(integrity("record number matches multiple types"));
            }
        }
        let count: usize = self.tables.len();
        assert(self.next < count);
        let mut next = self;
        next.next = next.next + 1;
        next.class_read = None;
        next.found = Some(row);
        Ok(next)
    }

    pub fn after_page(self, reply: Result<Page, Failure>) -> (r: Result<
        NumberLookup,
        RecordResolveError,
    >)
        requires
            self@.well_formed(),
            self@.class_read is None,
            self@.next < self@.tables.len(),
        ensures
            lookup_result(r, self@.after_page(reply_view(reply))),
            r is Ok ==> r->Ok_0@.well_formed(),
    {
        let mut page: Page = match reply {
            Ok(page) => page,
            Err(_) => return Err(unavailable("number lookup table is unreadable")),
        };
        if page.partial || page.rows.len() > 1 {
            return Err(
                integrity("record number is ambiguous or provider returned a partial page"),
            );
        }
        if page.rows.len() == 0 {
            let count: usize = self.tables.len();
            assert(self.next < count);
            let mut next = self;
            next.next = next.next + 1;
            return Ok(next);
        }
        let ghost rows = row_views(page.rows@);
        let row: Row = page.rows.remove(0);
        assert(rows[0] == row@);
        let named: bool = match row.get_raw("number") {
            Some(n) => same(n, self.number.as_str()),
            None => false,
        };
        if !named {
            return Err(integrity("number lookup returned an unrelated record"));
        }
        let class: String = match actual_table(&row) {
            Ok(t) => t,
            Err(e) => return Err(e),
        };
        assert(self@.tables[self.next as int] == self.tables@[self.next as int]@);
        if same(class.as_str(), self.tables[self.next].as_str()) {
            self.accept(row)
        } else {
            let mut next = self;
            next.class_read = Some(ClassRead { table: class, sys_id: row.sys_id });
            Ok(next)
        }
    }

    pub fn after_class(self, reply: Result<Row, Failure>) -> (r: Result<
        NumberLookup,
        RecordResolveError,
    >)
        requires
            self@.well_formed(),
            self@.class_read is Some,
        ensures
            lookup_result(r, self@.after_class(row_reply(reply))),
            r is Ok ==> r->Ok_0@.well_formed(),
    {
        let row: Row = match reply {
            Ok(row) => row,
            Err(_) => return Err(unavailable("number's actual class is unreadable")),
        };
        let (table, sys_id): (&String, &String) = match &self.class_read {
            Some(c) => (&c.table, &c.sys_id),
            None => return Err(integrity("record changed during number resolution")),
        };
        let named: bool = match row.get_raw("number") {
            Some(n) => same(n, self.number.as_str()),
            None => false,
        };
        if !named || !same(row.sys_id.as_str(), sys_id.as_str()) {
            return Err(integrity("record changed during number resolution"));
        }
        let class: String = match actual_table(&row) {
            Ok(t) => t,
            Err(e) => return Err(e),
        };
        if !same(class.as_str(), table.as_str()) {
            return Err(integrity("record changed during number resolution"));
        }
        self.accept(row)
    }

    /// The record that every table agreed on. Where there is none and the
    /// prefix metadata could not be read, that failure is the answer.
    pub fn finish(self) -> (r: Result<Option<Row>, RecordResolveError>)
        requires
            self@.well_formed(),
        ensures
            match self.found {
                Some(row) => r == Ok::<Option<Row>, RecordResolveError>(Some(row)) && row@.raw(
                    "number"@,
                ) == Some(self.number@),
                None => match self.mapping_error {
                    Some(e) => r == Err::<Option<Row>, RecordResolveError>(e),
                    None => r == Ok::<Option<Row>, RecordResolveError>(None),
                },
            },
    {
        match self.found {
            Some(row) => Ok(Some(row)),
            None => match self.mapping_error {
                Some(e) => Err(e),
                None => Ok(None),
            },
        }
    }
}

/// Every step of a number lookup either asks about the same table once more, in
/// its actual class, or leaves one table behind; so a lookup over `n` tables
/// ends after at most two requests for each.
pub proof fn number_lookups_end(
    state: NumberLookupView,
    page: Result<PageView, Failure>,
    row: Result<RowView, Failure>,
)
    requires
        state.well_formed(),
    ensures
        state.class_read is None && state.next < state.tables.len() ==> (state.after_page(
            page,
        ) matches Ok(next) ==> next.tables == state.tables && next.number == state.number
            && requests_left(next) < requests_left(state)),
        state.class_read is Some ==> (state.after_class(row) matches Ok(next) ==> next.tables
            == state.tables && next.number == state.number && requests_left(next) < requests_left(
            state,
        )),
{
}

pub open spec fn requests_left(state: NumberLookupView) -> int {
    2 * (state.tables.len() - state.next) - (if state.class_read is Some {
        1int
    } else {
        0
    })
}

/// A record that answers for a number was found under one sys_id only: a second
/// table that means another record fails the lookup.
pub proof fn numbers_mean_one_record(state: NumberLookupView, row: RowView)
    requires
        state.found is Some,
        state.accept(row) is Ok,
    ensures
        row.sys_id == state.found->0.sys_id,
{
}

} // verus!
