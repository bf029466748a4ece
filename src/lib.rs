//! A single-user task list: tasks with a cyclic status, an ordered store
//! with a monotonic id generator, and the decisions taken on each user
//! intent. Rendering, file access and serialisation live outside.
pub mod manager;
pub mod status;
pub mod style;
pub mod task;
