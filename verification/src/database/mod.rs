pub mod models;
pub mod repository;
pub mod storage;
