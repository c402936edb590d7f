//! Domain vocabulary: devices, automation rules, MQTT payloads and the
//! database string encoding of their enumerations.

pub mod automation;
pub mod db_enum;
pub mod device;
pub mod mqtt;
pub mod switch;
