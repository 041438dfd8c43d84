//! Verified core of a fund-research tool: readers for what the fund data
//! services answer (scripts, HTML tables, JSON, the ranking feed), the
//! decisions of the paged downloads, the name cache, ordering and merging
//! of results, and the small rules of the command layer.

pub mod cache;
pub mod commands;
pub mod config;
pub mod dates;
pub mod eastmoney;
pub mod f10;
pub mod jbgk;
pub mod js;
pub mod json;
pub mod managers;
pub mod navs;
pub mod numbers;
pub mod ranking;
pub mod report;
pub mod requests;
pub mod resolve;
pub mod sorting;
pub mod tables;
pub mod text;
pub mod workflow;
