use vstd::prelude::*;

pub mod database;
pub mod distance;
pub mod exceptions;
pub mod monitor;
pub mod network;
pub mod text;
pub mod website;
