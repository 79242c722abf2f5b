//! Conditions on what a field refers to.
use vstd::prelude::*;
use vstd::string::*;

use crate::article::is_blank;
use crate::query::{Query, QueryView};
use crate::tables::{normalize_record_lookup_sys_id, sys_id_of};
use crate::text::{joined, text_of_ref, trim, trim_text};

verus! {

/// The condition on a field for what was given: a sys_id is that of the record
/// referred to, any other text a part of its name. A blank text asks for nothing.
pub open spec fn referring(q: QueryView, field: Seq<char>, given: Option<Seq<char>>) -> QueryView {
    match given {
        Some(text) => if is_blank(text) {
            q
        } else {
            match sys_id_of(text) {
                Some(id) => q.equals(field, id),
                None => q.contains(field + ".name"@, trim(text)),
            }
        },
        None => q,
    }
}

/// Adds the condition on what a field refers to.
pub fn reference_filter(query: Query, field: &str, given: Option<&str>) -> (r: Query)
    ensures
        r@ == referring(query@, field@, text_of_ref(given)),
{
    match given {
        Some(text) => {
            let wanted: String = trim_text(text);
            if wanted.as_str().unicode_len() == 0 {
                return query;
            }
            match normalize_record_lookup_sys_id(text) {
                Ok(id) => query.equals(field, id.as_str()),
                Err(_) => query.contains(joined(field, ".name").as_str(), wanted.as_str()),
            }
        },
        None => query,
    }
}

} // verus!
