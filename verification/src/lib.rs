//! A typed dataflow graph: nodes built from templates, connected by typed
//! ports, and evaluated on demand with a cache of the outputs already computed.
//!
//! - [`id_type`], [`data_type`], [`value`]: handles, classes of ports, values.
//! - [`graph`]: the store of nodes, parameters and connections. Every
//!   connection is checked when it is made, so that no node ever depends on
//!   itself.
//! - [`template`]: the kinds of node and the ports that each puts on a node.
//! - [`eval`]: one step of an evaluation. [`driver`]: an evaluation to the end.
//!   [`cache`]: the values that an evaluation keeps.
//! - [`meaning`]: the value of a node apart from any cache. [`laws`]: what
//!   holds of every graph and every evaluation.
//! - [`state`]: which node an editor shows the value of.
//! - [`color`], [`document`]: what is taken on trust from `egui` and
//!   `serde_json`.

pub mod id_type;
pub mod color;
pub mod data_type;
pub mod document;
pub mod value;
pub mod errors;
pub mod template;
pub mod graph;
pub mod state;
pub mod cache;
pub mod eval;
pub mod driver;
pub mod meaning;
pub mod laws;
