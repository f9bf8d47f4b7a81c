pub mod text;
pub mod numbers;
pub mod metadata;
pub mod form;
pub mod error;
pub mod ids;
pub mod fts;
pub mod documents;
pub mod time;
pub mod search;
pub mod stats;
pub mod db_url;
pub mod endpoints;
pub mod markdown;
pub mod pages;
