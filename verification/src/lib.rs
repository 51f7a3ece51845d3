//! Verified core of a Prometheus / OTLP exporter for the ARRIS CM3500B CE
//! cable modem: the parsing of the modem's pages, the Prometheus text and
//! OTLP metrics and logs built from them, link-state hysteresis and
//! capacity derivation for gateway automation.

pub mod automation;
pub mod channel_page;
pub mod channels;
pub mod client;
pub mod clock;
pub mod events;
pub mod metrics;
pub mod num;
pub mod otlp;
pub mod otlp_metrics;
pub mod parser;
pub mod pattern;
pub mod product_page;
pub mod spectrum;
pub mod spectrum_page;
pub mod text;
