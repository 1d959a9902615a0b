//! A fixed-capacity request/response exchange: two positional slot queues
//! held in one segment, the byte layout of that segment, and the decisions a
//! gateway takes for each inbound call.

pub mod record;

pub mod queue;
pub mod segment;
pub mod theorems;
pub mod codec;
pub mod gateway;
pub mod layout;

pub use crate::segment::{
    clear_shared_memory, create_shared_memory, read_from_input_queue, read_from_output_queue,
    remove_from_input_queue, remove_from_output_queue, write_to_input_queue,
    write_to_output_queue,
};
