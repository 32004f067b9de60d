//! Validation of filter requests and construction of row filters for three
//! resources of a library service: books, employees and members.
//!
//! A filter request is a set of keys with text values, as a query string
//! gives them. [`validate::validate`] decides whether such a request is well
//! formed for a resource, [`filter::build_filter`] turns it into conditions
//! on the rows of the resource's table, and [`filter::query_for`] does both
//! and tells a request for the whole table apart. What each of them returns
//! is stated in its contract and proved.

pub mod error;
pub mod filter;
pub mod number;
pub mod params;
pub mod schema;
pub mod text;
pub mod validate;
