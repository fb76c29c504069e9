pub mod urls;
