//! A verified model of a round-robin load-generation harness.
//!
//! A dispatcher fans numbered work items out over a fixed pool of worker
//! lanes, probes the idle lanes with heartbeats, collects exactly one
//! completed item per step, and records it to an append-only sink. The
//! data model, the lane reaction logic, and the dispatch/collection
//! protocol are verified here; threads, channels and file output live in
//! the surrounding application.

pub mod decimal;
pub mod dispatcher;
pub mod envelope;
pub mod lane;
pub mod message;

pub use crate::dispatcher::{
    collect_envelope, lane_for_step, lane_label_string, run_dispatch, run_step, step_envelopes,
};
pub use crate::envelope::MessageKind;
pub use crate::lane::{lane_step, make_task, LaneAction};
pub use crate::message::{History, HistoryKind, Message};
