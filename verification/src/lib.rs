//! A small verified app store for a workspace: create, read, update and
//! delete `App` records held in a table, with a change notification sent to
//! an injected observable sink on every mutation that the table accepts.

pub mod app_controller;
pub mod app_table;
pub mod decimal;
pub mod entities;
pub mod errors;
pub mod laws;
pub mod observable;
pub mod text;
