//! In-memory question and answer collections with their query and
//! mutation rules: keyed tables, pagination of listings and the error
//! kinds that the request layer renders.

pub mod error;
pub mod number;
pub mod pagination;
pub mod table;
pub mod question;
pub mod answer;
pub mod query;
pub mod store;
