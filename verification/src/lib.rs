pub mod answer_laws;
pub mod config;
pub mod contract_source;
pub mod encoding;
pub mod entries;
pub mod error;
pub mod handlers;
pub mod interface;
pub mod invoke;
pub mod invoke_laws;
pub mod json;
pub mod json_laws;
pub mod listing_laws;
pub mod order;
pub mod probe;
pub mod reading_laws;
pub mod render;
pub mod render_laws;
pub mod round_trip;
pub mod rpc;
pub mod scval;
pub mod scval_laws;
pub mod service_laws;
pub mod source_laws;
pub mod spec;
pub mod spec_json;
pub mod spec_json_laws;
pub mod spec_laws;
pub mod state;
pub mod step_laws;
pub mod table;
pub mod text;
pub mod transaction;
pub mod txbuild;
pub mod txbuild_laws;
pub mod value;
pub mod xdr;
pub mod xdr_tx;
pub mod xdr_types;
