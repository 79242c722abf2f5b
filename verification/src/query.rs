//! Table queries as plain values. A query says which rows of a table are wanted
//! and how they come back; sending it is left to the caller.
use vstd::prelude::*;
use vstd::string::*;

use crate::text::{text_of, texts};

verus! {

/// How a condition compares a field with its value.
#[derive(Clone, Copy, Debug, PartialEq, Eq, Structural)]
pub enum Operator {
    Equals,
    NotEquals,
    Contains,
    StartsWith,
    EndsWith,
    GreaterThan,
    GreaterThanOrEqual,
    LessThan,
    LessThanOrEqual,
    In,
    IsEmpty,
    IsNotEmpty,
}

/// Which values of a field come back.
#[derive(Clone, Copy, Debug, PartialEq, Eq, Structural)]
pub enum DisplayMode {
    Raw,
    Display,
    Both,
}

/// One condition. It is joined to the one before it by "or" where
/// `alternative` is set, else by "and".
pub struct Condition {
    pub alternative: bool,
    pub field: String,
    pub operator: Operator,
    pub value: String,
}

pub struct ConditionView {
    pub alternative: bool,
    pub field: Seq<char>,
    pub operator: Operator,
    pub value: Seq<char>,
}

/// One ordering key.
pub struct SortKey {
    pub field: String,
    pub descending: bool,
}

pub struct SortKeyView {
    pub field: Seq<char>,
    pub descending: bool,
}

pub struct Query {
    pub table: String,
    pub fields: Vec<String>,
    pub dot_walk: Vec<String>,
    pub conditions: Vec<Condition>,
    pub order: Vec<SortKey>,
    pub limit: Option<u32>,
    pub offset: Option<u32>,
    pub display: DisplayMode,
    pub without_count: bool,
    pub without_links: bool,
}

#[verifier::ext_equal]
pub struct QueryView {
    pub table: Seq<char>,
    pub fields: Seq<Seq<char>>,
    pub dot_walk: Seq<Seq<char>>,
    pub conditions: Seq<ConditionView>,
    pub order: Seq<SortKeyView>,
    pub limit: Option<u32>,
    pub offset: Option<u32>,
    pub display: DisplayMode,
    pub without_count: bool,
    pub without_links: bool,
}

impl View for Condition {
    type V = ConditionView;

    open spec fn view(&self) -> ConditionView {
        ConditionView {
            alternative: self.alternative,
            field: self.field@,
            operator: self.operator,
            value: self.value@,
        }
    }
}

impl View for SortKey {
    type V = SortKeyView;

    open spec fn view(&self) -> SortKeyView {
        SortKeyView { field: self.field@, descending: self.descending }
    }
}

impl View for Query {
    type V = QueryView;

    open spec fn view(&self) -> QueryView {
        QueryView {
            table: self.table@,
            fields: texts(self.fields@),
            dot_walk: texts(self.dot_walk@),
            conditions: self.conditions@.map_values(|c: Condition| c@),
            order: self.order@.map_values(|k: SortKey| k@),
            limit: self.limit,
            offset: self.offset,
            display: self.display,
            without_count: self.without_count,
            without_links: self.without_links,
        }
    }
}

/// The texts joined with a comma between each two.
pub open spec fn comma_joined(parts: Seq<Seq<char>>) -> Seq<char>
    decreases parts.len(),
{
    if parts.len() == 0 {
        Seq::empty()
    } else if parts.len() == 1 {
        parts[0]
    } else {
        comma_joined(parts.drop_last()) + seq![','] + parts.last()
    }
}

/// The queries of a list.
pub open spec fn query_views(list: Seq<Query>) -> Seq<QueryView> {
    list.map_values(|q: Query| q@)
}

impl QueryView {
    /// Every row of a table, with every field, raw values and reference links.
    pub open spec fn of(table: Seq<char>) -> QueryView {
        QueryView {
            table,
            fields: Seq::empty(),
            dot_walk: Seq::empty(),
            conditions: Seq::empty(),
            order: Seq::empty(),
            limit: None,
            offset: None,
            display: DisplayMode::Raw,
            without_count: false,
            without_links: false,
        }
    }

    pub open spec fn field(self, name: Seq<char>) -> QueryView {
        QueryView { fields: self.fields.push(name), ..self }
    }

    pub open spec fn fields(self, names: Seq<Seq<char>>) -> QueryView {
        QueryView { fields: self.fields + names, ..self }
    }

    pub open spec fn walk(self, names: Seq<Seq<char>>) -> QueryView {
        QueryView { dot_walk: self.dot_walk + names, ..self }
    }

    pub open spec fn when(self, alternative: bool, field: Seq<char>, operator: Operator, value: Seq<char>) -> QueryView {
        QueryView {
            conditions: self.conditions.push(
                ConditionView { alternative, field, operator, value },
            ),
            ..self
        }
    }

    pub open spec fn equals(self, field: Seq<char>, value: Seq<char>) -> QueryView {
        self.when(false, field, Operator::Equals, value)
    }

    pub open spec fn or_equals(self, field: Seq<char>, value: Seq<char>) -> QueryView {
        self.when(true, field, Operator::Equals, value)
    }

    pub open spec fn greater_than(self, field: Seq<char>, value: Seq<char>) -> QueryView {
        self.when(false, field, Operator::GreaterThan, value)
    }

    pub open spec fn less_than(self, field: Seq<char>, value: Seq<char>) -> QueryView {
        self.when(false, field, Operator::LessThan, value)
    }

    pub open spec fn contains(self, field: Seq<char>, value: Seq<char>) -> QueryView {
        self.when(false, field, Operator::Contains, value)
    }

    pub open spec fn in_list(self, field: Seq<char>, values: Seq<Seq<char>>) -> QueryView {
        self.when(false, field, Operator::In, comma_joined(values))
    }

    pub open spec fn is_empty(self, field: Seq<char>) -> QueryView {
        self.when(false, field, Operator::IsEmpty, ""@)
    }

    /// The condition on a value that may be absent; an absent value adds none.
    pub open spec fn when_given(self, field: Seq<char>, operator: Operator, value: Option<Seq<char>>) -> QueryView {
        match value {
            Some(v) => self.when(false, field, operator, v),
            None => self,
        }
    }

    /// One of the values, where there are any.
    pub open spec fn in_given(self, field: Seq<char>, values: Seq<Seq<char>>) -> QueryView {
        if values.len() == 0 {
            self
        } else {
            self.in_list(field, values)
        }
    }

    /// The value, or one of the values where there are several.
    pub open spec fn one_of(self, field: Seq<char>, values: Seq<Seq<char>>) -> QueryView {
        if values.len() == 1 {
            self.equals(field, values[0])
        } else {
            self.in_list(field, values)
        }
    }

    pub open spec fn flag(self, field: Seq<char>, value: Option<bool>) -> QueryView {
        match value {
            Some(v) => self.equals(field, if v { "true"@ } else { "false"@ }),
            None => self,
        }
    }

    pub open spec fn ascending(self, field: Seq<char>) -> QueryView {
        QueryView { order: self.order.push(SortKeyView { field, descending: false }), ..self }
    }

    pub open spec fn descending(self, field: Seq<char>) -> QueryView {
        QueryView { order: self.order.push(SortKeyView { field, descending: true }), ..self }
    }

    pub open spec fn limit(self, n: u32) -> QueryView {
        QueryView { limit: Some(n), ..self }
    }

    pub open spec fn offset(self, n: u32) -> QueryView {
        QueryView { offset: Some(n), ..self }
    }

    pub open spec fn display(self, mode: DisplayMode) -> QueryView {
        QueryView { display: mode, ..self }
    }

    pub open spec fn no_count(self) -> QueryView {
        QueryView { without_count: true, ..self }
    }

    pub open spec fn no_links(self) -> QueryView {
        QueryView { without_links: true, ..self }
    }
}

/// Joins texts with commas.
pub fn join_commas(parts: &Vec<String>) -> (r: String)
    ensures
        r@ == comma_joined(texts(parts@)),
{
    let mut out: String = String::new();
    let mut i: usize = 0;
    while i < parts.len()
        invariant
            i <= parts@.len(),
            out@ == comma_joined(texts(parts@).subrange(0, i as int)),
        decreases parts@.len() - i,
    {
        let ghost before = texts(parts@).subrange(0, i as int);
        if i > 0 {
            out.append(",");
            proof {
                reveal_strlit(",");
            }
        }
        out.append(parts[i].as_str());
        i += 1;
        proof {
            let after = texts(parts@).subrange(0, i as int);
            assert(after.drop_last() =~= before);
            assert(after.last() == parts@[i - 1]@);
            assert(","@ =~= seq![',']) by {
                reveal_strlit(",");
            }
            if before.len() == 0 {
                assert(out@ =~= after[0]);
            }
        }
    }
    assert(texts(parts@).subrange(0, parts@.len() as int) =~= texts(parts@));
    out
}

impl Query {
    pub fn of(table: &str) -> (r: Query)
        ensures
            r@ == QueryView::of(table@),
    {
        let r = Query {
            table: table.to_owned(),
            fields: Vec::new(),
            dot_walk: Vec::new(),
            conditions: Vec::new(),
            order: Vec::new(),
            limit: None,
            offset: None,
            display: DisplayMode::Raw,
            without_count: false,
            without_links: false,
        };
        assert(r@ =~= QueryView::of(table@));
        r
    }

    pub fn field(self, name: &str) -> (r: Query)
        ensures
            r@ == self@.field(name@),
    {
        let mut q = self;
        q.fields.push(name.to_owned());
        assert(q@ =~= self@.field(name@));
        q
    }

    pub fn fields(self, names: &Vec<String>) -> (r: Query)
        ensures
            r@ == self@.fields(texts(names@)),
    {
        let mut q = self;
        let mut i: usize = 0;
        assert(q@ =~= self@.fields(texts(names@).subrange(0, 0)));
        while i < names.len()
            invariant
                i <= names@.len(),
                q@ == self@.fields(texts(names@).subrange(0, i as int)),
            decreases names@.len() - i,
        {
            let ghost before = q@;
            q.fields.push(names[i].clone());
            i += 1;
            assert(q@.fields =~= before.fields.push(names@[i - 1]@));
            assert(q@ =~= self@.fields(texts(names@).subrange(0, i as int)));
        }
        assert(texts(names@).subrange(0, i as int) =~= texts(names@));
        q
    }

    pub fn walk(self, names: &Vec<String>) -> (r: Query)
        ensures
            r@ == self@.walk(texts(names@)),
    {
        let mut q = self;
        let mut i: usize = 0;
        assert(q@ =~= self@.walk(texts(names@).subrange(0, 0)));
        while i < names.len()
            invariant
                i <= names@.len(),
                q@ == self@.walk(texts(names@).subrange(0, i as int)),
            decreases names@.len() - i,
        {
            let ghost before = q@;
            q.dot_walk.push(names[i].clone());
            i += 1;
            assert(q@.dot_walk =~= before.dot_walk.push(names@[i - 1]@));
            assert(q@ =~= self@.walk(texts(names@).subrange(0, i as int)));
        }
        assert(texts(names@).subrange(0, i as int) =~= texts(names@));
        q
    }

    pub fn when(self, alternative: bool, field: &str, operator: Operator, value: &str) -> (r: Query)
        ensures
            r@ == self@.when(alternative, field@, operator, value@),
    {
        let mut q = self;
        q.conditions.push(
            Condition { alternative, field: field.to_owned(), operator, value: value.to_owned() },
        );
        assert(q@ =~= self@.when(alternative, field@, operator, value@));
        q
    }

    pub fn equals(self, field: &str, value: &str) -> (r: Query)
        ensures
            r@ == self@.equals(field@, value@),
    {
        self.when(false, field, Operator::Equals, value)
    }

    pub fn or_equals(self, field: &str, value: &str) -> (r: Query)
        ensures
            r@ == self@.or_equals(field@, value@),
    {
        self.when(true, field, Operator::Equals, value)
    }

    pub fn greater_than(self, field: &str, value: &str) -> (r: Query)
        ensures
            r@ == self@.greater_than(field@, value@),
    {
        self.when(false, field, Operator::GreaterThan, value)
    }

    pub fn less_than(self, field: &str, value: &str) -> (r: Query)
        ensures
            r@ == self@.less_than(field@, value@),
    {
        self.when(false, field, Operator::LessThan, value)
    }

    pub fn contains(self, field: &str, value: &str) -> (r: Query)
        ensures
            r@ == self@.contains(field@, value@),
    {
        self.when(false, field, Operator::Contains, value)
    }

    pub fn in_list(self, field: &str, values: &Vec<String>) -> (r: Query)
        ensures
            r@ == self@.in_list(field@, texts(values@)),
    {
        let joined: String = join_commas(values);
        self.when(false, field, Operator::In, joined.as_str())
    }

    pub fn is_empty(self, field: &str) -> (r: Query)
        ensures
            r@ == self@.is_empty(field@),
    {
        self.when(false, field, Operator::IsEmpty, "")
    }

    pub fn when_given(self, field: &str, operator: Operator, value: &Option<String>) -> (r: Query)
        ensures
            r@ == self@.when_given(field@, operator, text_of(*value)),
    {
        match value {
            Some(v) => self.when(false, field, operator, v.as_str()),
            None => self,
        }
    }

    pub fn in_given(self, field: &str, values: &Vec<String>) -> (r: Query)
        ensures
            r@ == self@.in_given(field@, texts(values@)),
    {
        if values.is_empty() {
            self
        } else {
            self.in_list(field, values)
        }
    }

    pub fn one_of(self, field: &str, values: &Vec<String>) -> (r: Query)
        ensures
            r@ == self@.one_of(field@, texts(values@)),
    {
        if values.len() == 1 {
            assert(texts(values@)[0] == values@[0]@);
            self.equals(field, values[0].as_str())
        } else {
            self.in_list(field, values)
        }
    }

    pub fn flag(self, field: &str, value: Option<bool>) -> (r: Query)
        ensures
            r@ == self@.flag(field@, value),
    {
        match value {
            Some(v) => if v {
                self.equals(field, "true")
            } else {
                self.equals(field, "false")
            },
            None => self,
        }
    }

    pub fn ascending(self, field: &str) -> (r: Query)
        ensures
            r@ == self@.ascending(field@),
    {
        let mut q = self;
        q.order.push(SortKey { field: field.to_owned(), descending: false });
        assert(q@ =~= self@.ascending(field@));
        q
    }

    pub fn descending(self, field: &str) -> (r: Query)
        ensures
            r@ == self@.descending(field@),
    {
        let mut q = self;
        q.order.push(SortKey { field: field.to_owned(), descending: true });
        assert(q@ =~= self@.descending(field@));
        q
    }

    pub fn limit(self, n: u32) -> (r: Query)
        ensures
            r@ == self@.limit(n),
    {
        let mut q = self;
        q.limit = Some(n);
        q
    }

    pub fn offset(self, n: u32) -> (r: Query)
        ensures
            r@ == self@.offset(n),
    {
        let mut q = self;
        q.offset = Some(n);
        q
    }

    pub fn display(self, mode: DisplayMode) -> (r: Query)
        ensures
            r@ == self@.display(mode),
    {
        let mut q = self;
        q.display = mode;
        q
    }

    pub fn no_count(self) -> (r: Query)
        ensures
            r@ == self@.no_count(),
    {
        let mut q = self;
        q.without_count = true;
        q
    }

    pub fn no_links(self) -> (r: Query)
        ensures
            r@ == self@.no_links(),
    {
        let mut q = self;
        q.without_links = true;
        q
    }
}

} // verus!
