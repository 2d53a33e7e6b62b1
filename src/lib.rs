//! Priority-ceiling locking for priority-preemptive, interrupt-driven task systems.
//!
//! Tasks share data through resources whose access is granted by a priority
//! token; a claim raises the dynamic priority to the resource's ceiling for the
//! duration of a critical section and restores it afterwards.

pub mod priority;
pub mod resource;
pub mod mutex;
pub mod composite;

pub use crate::mutex::{Exclusive, Mutex};
