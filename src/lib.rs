//! A minimal consumer for a Pulsar broker: configuration read from plain
//! environment values, the broker address, and the decisions of the
//! receive-and-acknowledge loop as a verified state machine.

pub mod config;
pub mod address;
pub mod runner;
