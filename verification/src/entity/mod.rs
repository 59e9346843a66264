//! The entities of a diagram: storage rows, wire views and joined rows.

pub mod change;
pub mod dto;
pub mod model;
pub mod vo;
