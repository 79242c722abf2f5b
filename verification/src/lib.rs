//! The rules of a ServiceNow client core: resolving records, typed queries, incident
//! queues, the knowledge catalog and its indexes, the service catalog, time cards,
//! checked writes and the bookkeeping of the vault. What is to be asked and what the
//! answers mean is decided here; asking is left to the caller.

pub mod article;
pub mod article_laws;
pub mod call_laws;
pub mod catalog;
pub mod catalog_items;
pub mod catalog_laws;
pub mod catalog_request;
pub mod choices;
pub mod decision_laws;
pub mod discovery_laws;
pub mod display_field;
pub mod display_laws;
pub mod document;
pub mod embedding_run;
pub mod group_laws;
pub mod groups;
pub mod id_search;
pub mod incident;
pub mod incident_laws;
pub mod incident_queue;
pub mod index_laws;
pub mod knowledge_index;
pub mod knowledge_refresh;
pub mod knowledge_service;
pub mod knowledge_sync;
pub mod listing;
pub mod live_model;
pub mod lookup_laws;
pub mod markdown;
pub mod my_work;
pub mod name_history;
pub mod name_laws;
pub mod name_search;
pub mod name_table;
pub mod number;
pub mod order;
pub mod outcome_laws;
pub mod page_input;
pub mod page_laws;
pub mod paging;
pub mod paths;
pub mod query;
pub mod queue_answer;
pub mod queue_call;
pub mod queue_items;
pub mod queue_laws;
pub mod record_error;
pub mod record_laws;
pub mod record_name_resolver;
pub mod record_number;
pub mod record_query;
pub mod record_resolver;
pub mod record_service;
pub mod record_types;
pub mod reference;
pub mod resolution;
pub mod row;
pub mod search_history;
pub mod selection;
pub mod semantic;
pub mod semantic_laws;
pub mod server;
pub mod server_laws;
pub mod session;
pub mod session_laws;
pub mod sla;
pub mod sla_laws;
pub mod sla_rows;
pub mod split;
pub mod split_laws;
pub mod stage_laws;
pub mod store_laws;
pub mod sync_laws;
pub mod sync_plan;
pub mod table_laws;
pub mod table_search;
pub mod tables;
pub mod tags;
pub mod terms;
pub mod text;
pub mod text_laws;
pub mod timecard;
pub mod timestamp;
pub mod type_search;
pub mod types;
pub mod user;
pub mod user_call;
pub mod user_laws;
pub mod vault;
pub mod work;
pub mod work_laws;
pub mod write_result;
