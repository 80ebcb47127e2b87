//! A verified model of a multimedia framework's core object layer:
//! reference-counted handles acquired under the create rule or the get rule,
//! runtime-typed downcasting between a generic handle and its concrete
//! subtypes, segmented memory blocks with borrowed views, sample buffers that
//! own their data and format members, FIFO buffer queues with trigger tokens,
//! simple element queues, and clocks with chains of derived timebases.
//!
//! Every object lives in a [`store::Store`], which plays the part of the
//! platform framework's allocator and registry. Operations surface the
//! framework's numeric status codes verbatim on failure, and the store can be
//! forced to fail a construction so that error paths can be exercised.
#![allow(non_snake_case)]
#![allow(non_upper_case_globals)]

pub mod base;
pub mod time;
pub mod time_range;
pub mod store;
pub mod attachment;
pub mod block_buffer;
pub mod buffer_queue;
pub mod sample_buffer;
pub mod sample_queue;
pub mod sync;
pub mod format_description;
