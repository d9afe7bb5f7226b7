//! Anchorage: the presentation, form and paging rules of a Linkding
//! bookmark client, with their behaviour stated and proved.

pub mod api;
pub mod config;
pub mod forms;
pub mod listing;
pub mod models;
pub mod numerals;
pub mod rows;
pub mod tags;
pub mod text;
pub mod urls;
