//! LayerMind: observation, knowledge and history logic for 3D printers,
//! with its contracts proved by Verus.

pub mod text;
pub mod event;
pub mod observation;
pub mod clock;
pub mod rules;
pub mod print_tracker;
pub mod metrics;
pub mod timeline;
pub mod query;
pub mod ids;
pub mod store;
pub mod bridge;
pub mod machine;
pub mod snapshot;
pub mod diff;
pub mod knowledge;
pub mod tracker;
pub mod knowledge_timeline;
pub mod profiler;
pub mod context;
pub mod knowledge_engine;
pub mod learning;
pub mod patterns;
pub mod prints;
pub mod calibration;
pub mod prediction;
pub mod config;
pub mod provider;
pub mod tui;
pub mod advisor;
pub mod database;
pub mod trends;
pub mod behavior;
pub mod optimization;
pub mod analyzer;
