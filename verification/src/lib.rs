//! Bridging of a DDS system over zenoh.
pub mod admin;
pub mod args;
pub mod changes;
pub mod collections;
pub mod config;
pub mod dds_mgt;
pub mod departure;
pub mod discoverer;
pub mod discovery;
pub mod entity;
pub mod gid;
pub mod histories;
pub mod jobs;
pub mod json;
pub mod key_expr;
pub mod keys;
pub mod laws;
pub mod modes;
pub mod number;
pub mod pattern;
pub mod policies;
pub mod qos;
pub mod qos_helpers;
pub mod qos_holder;
pub mod queries;
pub mod remap;
pub mod ros_discovery;
pub mod routes;
pub mod routing;
pub mod runtime;
pub mod sub_paths;
pub mod text;
