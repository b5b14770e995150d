//! A marketplace for recipes that lives in stable memory.
//!
//! Users register, are funded, create recipes and buy them from one another;
//! community recipes are free and open to everyone's edits. The state is a
//! [`store::Store`]: three tables of encoded records and one counter of
//! identities, each in a partition of the stable memory.
//!
//! - [`codec`] and [`record`] give the byte layout of a record and prove that
//!   what is written is read back;
//! - [`table`] and [`ids`] are the bounded record store and the identity
//!   allocator;
//! - [`user`], [`recipe`] and [`contract`] hold the records and the requests;
//! - [`model`] says what every operation does, as functions on the state;
//! - [`engine`] and [`catalog`] are the operations, proved against the model;
//! - [`integrity`] and [`laws`] state and prove what holds of the marketplace
//!   whatever is asked of it;
//! - [`rules`] checks the texts of a request;
//! - [`stable`] and [`text`] hold what is taken on trust: the stable
//!   structures and three text operations of the standard library.

pub mod catalog;
pub mod codec;
pub mod contract;
pub mod engine;
pub mod error;
pub mod ids;
pub mod integrity;
pub mod laws;
pub mod model;
pub mod recipe;
pub mod record;
pub mod rules;
pub mod stable;
pub mod store;
pub mod table;
pub mod text;
pub mod user;
