//! Gacha history ledger: credential discovery, URL validation, paginated
//! fetching, idempotent record merging, pity analysis, interchange formats and
//! a cancellable task registry.

pub mod account;
pub mod action;
pub mod analysis;
pub mod config;
pub mod entity;
pub mod error;
pub mod export;
pub mod fetcher;
pub mod gacha_url;
pub mod game_biz;
pub mod import;
pub mod ledger;
pub mod metadata;
pub mod notification;
pub mod service;
pub mod task;
pub mod text;
pub mod types;
pub mod uigf;
pub mod widgets;
