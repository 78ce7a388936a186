//! Rendering of the kernel task table of a Hubris system: the ps-like
//! listing, with each task's scheduling state, fault, notification bits,
//! registers and stack.

pub mod text;
pub mod task_id;
pub mod notification;
pub mod fault;
pub mod state;
pub mod stack;
pub mod registers;
pub mod listing;
