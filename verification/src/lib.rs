//! Core logic of the containr platform: configuration, service models,
//! naming rules, routing decisions and runtime summaries.
pub mod dup;
pub mod ids;
pub mod models;
pub mod text;
pub mod managed;
pub mod inventory;
pub mod catalog;
pub mod deploy;
pub mod naming;
pub mod config;
pub mod proxy;
pub mod client;
pub mod systemd;
pub mod records;
pub mod routing;
pub mod secrets;
pub mod dbctl;
pub mod dbplan;
pub mod env;
pub mod docker;
pub mod launch;
pub mod rollout;
pub mod imagebuild;
pub mod cron;
pub mod crontab;
pub mod store;
pub mod servicestore;
pub mod dbrecord;
pub mod deployrecord;
pub mod ctl;
pub mod logs;
pub mod certs;
