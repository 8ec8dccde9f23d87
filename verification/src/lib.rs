//! `boss`: a Matter bridge for Home Assistant MQTT-discovery devices.
//!
//! The library decides: what a discovery topic announces, which slot a device
//! is bound to, where messages and Matter operations go, what is published and
//! subscribed to, and what the status page shows. The program around it does
//! the I/O, and reports back what came of it.

pub mod bridge;
pub mod config;
pub mod discovery;
pub mod error;
pub mod mdns;
pub mod mqtt;
pub mod router;
pub mod text;
pub mod web;
