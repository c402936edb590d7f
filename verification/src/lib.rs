//! Verified core of a small home-automation server: request routing and
//! query parsing, rule-engine decisions, SVG upload checks, the voice
//! persona state machine and the device/model vocabulary.

pub mod text;
pub mod query;
pub mod routing;
pub mod voice;
pub mod svg;
pub mod models;
pub mod sorted;
pub mod readings;
pub mod automation;
pub mod compression;
pub mod websocket;
pub mod cache;
pub mod ids;
pub mod rule_requests;
pub mod logs;
pub mod brain;
pub mod retention;
pub mod mqtt_loop;
pub mod floor_plan;
pub mod device_requests;
pub mod storage_cache;
pub mod static_files;
pub mod rule_rows;
pub mod ws_clients;
pub mod events;
