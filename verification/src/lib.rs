//! FerroBank core: the verified rules of a small core-banking system.
#![allow(unused_imports)]

pub mod models;
pub mod text;
pub mod money;
pub mod errors;
pub mod transfer;
pub mod accounts;
pub mod loans;
pub mod ledger;
pub mod otp;
pub mod actions;
pub mod ratelimit;
pub mod bank;
pub mod session;
pub mod view;
pub mod security;
pub mod telegram;
pub mod notices;
pub mod config;
pub mod records;
pub mod users;
pub mod forms;
pub mod effects;
pub mod calendar;
