//! A minimal computational model in which integers, boolean-like outcomes,
//! and executable transforms are all represented by one recursive value type,
//! and programs are two-dimensional grids whose traversal rule doubles as
//! control flow: a row is one candidate plan, a column is one step of it.
#![allow(non_snake_case)]

pub mod algebra;
pub mod codec;
pub mod eval;
pub mod laws;
pub mod value;
