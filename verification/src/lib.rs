//! A crawler core for Gemini space: the gemtext parser, the response
//! classifier, the redirect-following client, the link graph and the crawl
//! scheduler, each with a machine-checked contract.

pub mod client;
pub mod crawl;
pub mod document;
pub mod error;
pub mod export;
pub mod gemini_web;
pub mod graph;
pub mod header;
pub mod resource;
pub mod response;
pub mod round_trip;
pub mod text;
pub mod web_view;
