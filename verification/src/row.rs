//! Rows and pages as a provider returns them, reduced to the texts that the
//! rules read.
use vstd::prelude::*;

use crate::text::{same, text_of, text_of_ref};

verus! {

/// One field of a row: its raw value and its display value, where they are text.
pub struct Cell {
    pub name: String,
    pub raw: Option<String>,
    pub display: Option<String>,
    /// A raw value that is no text, written out as JSON.
    pub other: Option<String>,
}

/// One record of a table.
pub struct Row {
    pub table: String,
    pub sys_id: String,
    pub cells: Vec<Cell>,
}

/// What a page request brought: its rows, and whether the provider also
/// reported errors beside them.
pub struct Page {
    pub rows: Vec<Row>,
    pub partial: bool,
}

/// Why a request failed.
#[derive(Clone, Copy, Debug, PartialEq, Eq)]
pub enum Failure {
    /// The provider refused the caller, with its HTTP status where it gave one.
    Auth(Option<u16>),
    /// The provider answered with an error status.
    Api(u16),
    /// The request did not get through.
    Http,
    /// The provider asks to come back later.
    RateLimited,
    /// No answer within the deadline.
    TimedOut,
    /// Anything else.
    Other,
}

pub struct CellView {
    pub raw: Option<Seq<char>>,
    pub display: Option<Seq<char>>,
    pub other: Option<Seq<char>>,
}

pub open spec fn cell_view(c: Cell) -> CellView {
    CellView { raw: text_of(c.raw), display: text_of(c.display), other: text_of(c.other) }
}

/// A row as a partial map from field names.
pub struct RowView {
    pub table: Seq<char>,
    pub sys_id: Seq<char>,
    pub cells: Map<Seq<char>, CellView>,
}

/// What a list of cells says of each field; of two cells with one name the first counts.
pub open spec fn cell_map(cells: Seq<Cell>) -> Map<Seq<char>, CellView>
    decreases cells.len(),
{
    if cells.len() == 0 {
        Map::empty()
    } else {
        cell_map(cells.subrange(1, cells.len() as int)).insert(
            cells[0].name@,
            cell_view(cells[0]),
        )
    }
}

impl View for Row {
    type V = RowView;

    open spec fn view(&self) -> RowView {
        RowView { table: self.table@, sys_id: self.sys_id@, cells: cell_map(self.cells@) }
    }
}

impl RowView {
    pub open spec fn raw(self, field: Seq<char>) -> Option<Seq<char>> {
        if self.cells.dom().contains(field) {
            self.cells[field].raw
        } else {
            None
        }
    }

    pub open spec fn display(self, field: Seq<char>) -> Option<Seq<char>> {
        if self.cells.dom().contains(field) {
            self.cells[field].display
        } else {
            None
        }
    }

    /// The raw value that is no text, as JSON.
    pub open spec fn other(self, field: Seq<char>) -> Option<Seq<char>> {
        if self.cells.dom().contains(field) {
            self.cells[field].other
        } else {
            None
        }
    }

    /// The display value where there is one, else the raw value.
    pub open spec fn shown(self, field: Seq<char>) -> Option<Seq<char>> {
        match self.display(field) {
            Some(s) => Some(s),
            None => self.raw(field),
        }
    }

    /// The raw value of a field: its text, or what is no text as JSON.
    pub open spec fn value(self, field: Seq<char>) -> Option<Seq<char>> {
        match self.raw(field) {
            Some(s) => Some(s),
            None => self.other(field),
        }
    }

    pub open spec fn has(self, field: Seq<char>) -> bool {
        self.cells.dom().contains(field)
    }
}

pub open spec fn row_views(rows: Seq<Row>) -> Seq<RowView> {
    rows.map_values(|r: Row| r@)
}

pub struct PageView {
    pub rows: Seq<RowView>,
    pub partial: bool,
}

impl View for Page {
    type V = PageView;

    open spec fn view(&self) -> PageView {
        PageView { rows: row_views(self.rows@), partial: self.partial }
    }
}

impl Row {
    fn position(&self, field: &str) -> (r: Option<usize>)
        ensures
            match r {
                Some(i) => i < self.cells@.len() && self@.has(field@) && self@.cells[field@]
                    == cell_view(self.cells@[i as int]),
                None => !self@.has(field@),
            },
    {
        let ghost all = self.cells@;
        let mut i: usize = 0;
        assert(all.subrange(0, all.len() as int) =~= all);
        while i < self.cells.len()
            invariant
                all == self.cells@,
                i <= all.len(),
                cell_map(all).dom().contains(field@) == cell_map(
                    all.subrange(i as int, all.len() as int),
                ).dom().contains(field@),
                cell_map(all).dom().contains(field@) ==> cell_map(all)[field@] == cell_map(
                    all.subrange(i as int, all.len() as int),
                )[field@],
            decreases all.len() - i,
        {
            let ghost rest = all.subrange(i as int, all.len() as int);
            assert(rest[0] == all[i as int]);
            assert(rest.subrange(1, rest.len() as int) =~= all.subrange(i + 1, all.len() as int));
            if same(self.cells[i].name.as_str(), field) {
                return Some(i);
            }
            i += 1;
        }
        None
    }

    /// Whether the row has the field at all, readable or not.
    pub fn has_field(&self, field: &str) -> (r: bool)
        ensures
            r == self@.has(field@),
    {
        self.position(field).is_some()
    }

    /// The raw text of a field.
    pub fn get_raw(&self, field: &str) -> (r: Option<&str>)
        ensures
            text_of_ref(r) == self@.raw(field@),
    {
        match self.position(field) {
            Some(i) => match &self.cells[i].raw {
                Some(s) => Some(s.as_str()),
                None => None,
            },
            None => None,
        }
    }

    /// The display text of a field.
    pub fn get_display(&self, field: &str) -> (r: Option<&str>)
        ensures
            text_of_ref(r) == self@.display(field@),
    {
        match self.position(field) {
            Some(i) => match &self.cells[i].display {
                Some(s) => Some(s.as_str()),
                None => None,
            },
            None => None,
        }
    }

    /// The raw value of a field that is no text, as JSON.
    pub fn get_other(&self, field: &str) -> (r: Option<&str>)
        ensures
            text_of_ref(r) == self@.other(field@),
    {
        match self.position(field) {
            Some(i) => match &self.cells[i].other {
                Some(s) => Some(s.as_str()),
                None => None,
            },
            None => None,
        }
    }

    /// The text of a field, its display value first.
    pub fn get_str(&self, field: &str) -> (r: Option<&str>)
        ensures
            text_of_ref(r) == self@.shown(field@),
    {
        match self.get_display(field) {
            Some(s) => Some(s),
            None => self.get_raw(field),
        }
    }

    /// The raw value of a field, as JSON where it is no text.
    pub fn get_value(&self, field: &str) -> (r: Option<&str>)
        ensures
            text_of_ref(r) == self@.value(field@),
    {
        match self.get_raw(field) {
            Some(s) => Some(s),
            None => self.get_other(field),
        }
    }

    /// An exact copy of the row.
    pub fn copy(&self) -> (r: Row)
        ensures
            r@ == self@,
            r.table == self.table,
            r.sys_id == self.sys_id,
    {
        let mut cells: Vec<Cell> = Vec::new();
        let mut i: usize = 0;
        while i < self.cells.len()
            invariant
                i <= self.cells@.len(),
                cells@ == self.cells@.subrange(0, i as int),
            decreases self.cells@.len() - i,
        {
            let c: &Cell = &self.cells[i];
            cells.push(
                Cell {
                    name: c.name.clone(),
                    raw: c.raw.clone(),
                    display: c.display.clone(),
                    other: c.other.clone(),
                },
            );
            i += 1;
            assert(cells@ =~= self.cells@.subrange(0, i as int));
        }
        assert(cells@ =~= self.cells@);
        Row { table: self.table.clone(), sys_id: self.sys_id.clone(), cells }
    }
}

} // verus!
