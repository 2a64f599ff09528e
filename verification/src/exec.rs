//! What a request does to documents: reads, writes, schema changes and
//! pipelines.

pub mod join;
pub mod laws;
pub mod modify;
pub mod order;
pub mod page_laws;
pub mod pipeline;
pub mod pipeline_laws;
pub mod query;
pub mod read;
pub mod refusal_laws;
pub mod scan;
pub mod schema;
pub mod schema_laws;
pub mod write;

pub use self::modify::{find_and_modify, FindAndModifySpec, ReturnDocument};
pub use self::pipeline::{aggregate, aggregate_with_limits};
pub use self::read::{
    count, find, get_doc, get_doc_stamped, parse_id, FindParams, DEFAULT_LIMIT, MAX_LIMIT,
    MAX_SORT_WINDOW,
};
pub use self::scan::{
    collect_matching, collect_matching_stamped_after, visit_matching, Order, QueryStats,
};
pub use self::schema::{
    authorize, collection, confirmation_to_json, create_collection, create_index, drop_collection,
    drop_database, drop_index, index_to_json, list_collections, list_databases, list_indexes,
    now_millis, parse_filter, violations, IndexFieldSpec, IndexSpec,
};
pub use self::write::{
    delete, delete_by_id, insert, insert_many, replace, update, ReplaceParams, WriteParams,
    MAX_BULK_INSERT,
};
