//! The discovery of record types from end to end: which question is asked next,
//! and what its answer leads to.
use vstd::prelude::*;
use vstd::string::*;

use crate::query::Query;
use crate::record_error::{RecordResolveError, ResolveErrorView};
use crate::record_types::{
    after_catalog, after_definition, after_prefix, after_references, begin_type_search,
    catalog_next, catalog_query, catalog_query_of, definition_next, definition_query,
    definition_query_of, literal_of, prefix_answer, prefix_next, prefix_query, prefix_query_of,
    prefix_tables, reference_query, reference_query_of, references_next, reply_view, type_views,
    RecordType, TypeSelector, TypeStage, TypeTables,
};
use crate::row::{Failure, Page, PageView};
use crate::text::{is_identifier, text_of, texts, trim};

verus! {

/// A discovery under way.
pub struct TypeSearch {
    pub selector: TypeSelector,
    pub stage: TypeStage,
}

/// What a discovery asks next.
pub enum TypeRequest {
    /// The number metadata, on a prefix. The answer is read together with the
    /// table that is configured for the prefix.
    Prefix { prefix: String, query: Query },
    Ask(Query),
    /// Nothing: the types are known.
    Done,
}

/// The question of a stage. A table name that is none is not asked for.
pub open spec fn asks(selector: Seq<char>, stage: TypeStage, r: Result<TypeRequest, RecordResolveError>) -> bool {
    match stage {
        TypeStage::Prefix { prefix, last } => r matches Ok(TypeRequest::Prefix { prefix: p, query })
            && p@ == prefix@ && query@ == prefix_query_of(prefix@),
        TypeStage::Catalog => r matches Ok(TypeRequest::Ask(q)) && q@ == catalog_query_of(selector),
        TypeStage::References => r matches Ok(TypeRequest::Ask(q)) && q@ == reference_query_of(
            selector,
        ),
        TypeStage::Define { tables, found } => {
            let table = tables.tables@[found@.len() as int]@;
            if is_identifier(table) {
                r matches Ok(TypeRequest::Ask(q)) && q@ == definition_query_of(table)
            } else {
                r is Err && r->Err_0@ == ResolveErrorView::Integrity(
                    "metadata returned an invalid table"@,
                )
            }
        },
        TypeStage::Done { types } => r matches Ok(TypeRequest::Done),
    }
}

/// What an answer leads to. `configured` is the table of the prefix that was
/// asked for, if one is configured.
pub open spec fn type_next(
    selector: Seq<char>,
    stage: TypeStage,
    reply: Result<PageView, Failure>,
    configured: Option<Seq<char>>,
    r: Result<TypeStage, RecordResolveError>,
) -> bool {
    match stage {
        TypeStage::Prefix { prefix, last } => exists|answer: Result<TypeTables, RecordResolveError>|
            #[trigger] prefix_answer(prefix@, reply, configured, answer) && prefix_next(
                last,
                answer,
                r,
            ),
        TypeStage::Catalog => catalog_next(selector, reply, r),
        TypeStage::References => references_next(selector, reply, r),
        TypeStage::Define { tables, found } => definition_next(tables, found, reply, r),
        TypeStage::Done { types } => r == Ok::<TypeStage, RecordResolveError>(stage),
    }
}

impl TypeSearch {
    pub open spec fn well_formed(self) -> bool {
        self.selector.of(self.selector.selector@) && self.stage.well_formed()
    }

    pub fn start(selector: &str) -> (r: Result<TypeSearch, RecordResolveError>)
        ensures
            match r {
                Ok(s) => {
                    &&& literal_of(selector@) is Ok
                    &&& s.well_formed()
                    &&& s.selector.selector@ == trim(selector@)
                    &&& s.selector.is_prefix ==> (s.stage matches TypeStage::Prefix {
                        prefix,
                        last,
                    } && prefix@ == trim(selector@) && !last)
                    &&& !s.selector.is_prefix ==> s.stage is Catalog
                },
                Err(e) => literal_of(selector@) == Err::<Seq<char>, ResolveErrorView>(e@),
            },
    {
        match begin_type_search(selector) {
            Ok((sel, stage)) => Ok(TypeSearch { selector: sel, stage }),
            Err(e) => Err(e),
        }
    }

    pub fn request(&self) -> (r: Result<TypeRequest, RecordResolveError>)
        requires
            self.well_formed(),
        ensures
            asks(self.selector.selector@, self.stage, r),
    {
        match &self.stage {
            TypeStage::Prefix { prefix, last } => Ok(
                TypeRequest::Prefix { prefix: prefix.clone(), query: prefix_query(prefix.as_str()) },
            ),
            TypeStage::Catalog => Ok(TypeRequest::Ask(catalog_query(&self.selector))),
            TypeStage::References => Ok(TypeRequest::Ask(reference_query(&self.selector))),
            TypeStage::Define { tables, found } => match definition_query(
                tables.tables[found.len()].as_str(),
            ) {
                Ok(q) => Ok(TypeRequest::Ask(q)),
                Err(e) => Err(e),
            },
            TypeStage::Done { types } => Ok(TypeRequest::Done),
        }
    }

    /// Takes in the answer to the question that was asked.
    pub fn take(self, reply: &Result<Page, Failure>, configured: &Option<String>) -> (r: Result<
        TypeSearch,
        RecordResolveError,
    >)
        requires
            self.well_formed(),
        ensures
            match r {
                Ok(s) => s.well_formed() && s.selector == self.selector && type_next(
                    self.selector.selector@,
                    self.stage,
                    reply_view(*reply),
                    text_of(*configured),
                    Ok(s.stage),
                ),
                Err(e) => type_next(
                    self.selector.selector@,
                    self.stage,
                    reply_view(*reply),
                    text_of(*configured),
                    Err(e),
                ),
            },
    {
        let ghost before = self.stage;
        let selector: TypeSelector = self.selector;
        let next: Result<TypeStage, RecordResolveError> = match self.stage {
            TypeStage::Prefix { prefix, last } => {
                let answer: Result<TypeTables, RecordResolveError> = prefix_tables(
                    prefix.as_str(),
                    reply,
                    configured,
                );
                assert(prefix_answer(prefix@, reply_view(*reply), text_of(*configured), answer));
                after_prefix(last, answer)
            },
            TypeStage::Catalog => after_catalog(&selector, reply),
            TypeStage::References => after_references(&selector, reply),
            TypeStage::Define { tables, found } => after_definition(tables, found, reply),
            TypeStage::Done { types } => Ok(TypeStage::Done { types }),
        };
        proof {
            if next is Ok {
                lemma_stays_well_formed(
                    selector.selector@,
                    before,
                    reply_view(*reply),
                    text_of(*configured),
                    next,
                );
            }
        }
        match next {
            Ok(stage) => Ok(TypeSearch { selector, stage }),
            Err(e) => Err(e),
        }
    }

    /// The types, once they are known.
    pub fn finish(self) -> (r: Vec<RecordType>)
        requires
            self.stage is Done,
        ensures
            r == self.stage->types,
    {
        match self.stage {
            TypeStage::Done { types } => types,
            _ => Vec::new(),
        }
    }
}

proof fn lemma_stays_well_formed(
    selector: Seq<char>,
    stage: TypeStage,
    reply: Result<PageView, Failure>,
    configured: Option<Seq<char>>,
    r: Result<TypeStage, RecordResolveError>,
)
    requires
        stage.well_formed(),
        type_next(selector, stage, reply, configured, r),
        r is Ok,
    ensures
        r->Ok_0.well_formed(),
        r->Ok_0 matches TypeStage::Define { tables, found } ==> (match stage {
            TypeStage::Define { tables: t, found: f } => tables == t && found@.len() == f@.len()
                + 1,
            _ => true,
        }),
{
    if let TypeStage::Define { tables: next, found: types } = r->Ok_0 {
        assert(texts(next.tables@).len() == next.tables@.len());
        assert(type_views(types@).len() == types@.len());
        if let TypeStage::Define { tables, found } = stage {
            assert(type_views(found@).len() == found@.len());
        }
    }
}

/// How far a stage is from the end.
pub open spec fn stages_left(stage: TypeStage) -> int {
    match stage {
        TypeStage::Prefix { prefix, last } => if last {
            2
        } else {
            5
        },
        TypeStage::Catalog => 4,
        TypeStage::References => 3,
        TypeStage::Define { tables, found } => 1,
        TypeStage::Done { types } => 0,
    }
}

/// How many tables are still to be defined.
pub open spec fn tables_left(stage: TypeStage) -> int {
    match stage {
        TypeStage::Define { tables, found } => tables.tables@.len() - found@.len(),
        _ => 0,
    }
}

/// Every discovery ends: an answer leads to a later stage, or to one table less
/// to be defined.
pub proof fn type_searches_end(
    selector: Seq<char>,
    stage: TypeStage,
    reply: Result<PageView, Failure>,
    configured: Option<Seq<char>>,
    r: Result<TypeStage, RecordResolveError>,
)
    requires
        stage.well_formed(),
        !(stage is Done),
        type_next(selector, stage, reply, configured, r),
        r is Ok,
    ensures
        stages_left(r->Ok_0) < stages_left(stage) || (stages_left(r->Ok_0) == stages_left(stage)
            && 0 < tables_left(r->Ok_0) < tables_left(stage)),
{
    lemma_stays_well_formed(selector, stage, reply, configured, r);
}

} // verus!
