//! Three variants of a small message-driven state machine: one whose state is
//! an enum, one whose states are rows of a handler table, and a hierarchical
//! one whose states have parents that handle what a child leaves unhandled.

pub mod enum_state_machine;
pub mod fn_ptr_state_machine;
pub mod fn_ptr_hsm;
