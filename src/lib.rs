//! Dispatch of AMQP deliveries to sandboxed handler components.
//!
//! The library holds the decisions of the trigger: how broker properties become
//! envelope metadata, how configuration becomes bindings, how a handler's outcome
//! settles a delivery, and how a group of listeners is supervised.

pub mod decimal;
pub mod metadata;
pub mod config;
pub mod gateway;
pub mod broker;
pub mod listener;
pub mod supervisor;
pub mod trigger;
