//! A client for the task list of a Habitica account: an authenticated
//! request for the user's tasks, and the decoding of the reply into typed
//! tasks.

pub mod task;
