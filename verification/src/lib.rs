//! Timers that act on the machine at a set time, once or on a schedule.
//!
//! The heart is the scheduling engine: instants, recurrence rules and their
//! next occurrence, a registry of live timers kept in the order in which they
//! are due, the decisions of each timer's loop, and the recovery of a stored
//! snapshot after a restart. Beside it stand the commands that clients give,
//! the plan of attempts for each action, and the choice among published
//! releases when the program updates itself.

pub mod actions;
pub mod commands;
pub mod error;
pub mod instant;
pub mod recurrence;
pub mod registry;
pub mod releases;
pub mod restore;
pub mod scheduler;
pub mod text;
pub mod timer;
