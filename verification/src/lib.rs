//! Coordination of a long-running push job: progress normalisation, the
//! single-job state machine behind the controller, and the text-entry widget
//! that collects its parameters.

pub mod progress;
pub mod notify;
pub mod push;
pub mod text;
pub mod keys;
pub mod textinput;
pub mod span;
