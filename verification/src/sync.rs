//! Synchronisation between the tasks of a node.

pub mod task_interrupt;
