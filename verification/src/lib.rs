pub mod chars;
pub mod paths;
pub mod unicode;
pub mod title;
pub mod patterns;
pub mod parse;
pub mod media;
pub mod scanner;
pub mod jobs;
pub mod fmt;
pub mod enrich;
pub mod services;
pub mod sort;
pub mod catalog;
pub mod discovery;
pub mod subtitles;
pub mod matcher;
pub mod dedup;
pub mod fetch;
pub mod debounce;
pub mod acl;
pub mod schedule;
pub mod tokens;
pub mod library_service;
pub mod cards;
pub mod job_service;
pub mod collections;
pub mod enrichment;
pub mod hub_rows;
pub mod artwork;
