//! A counter page whose clicks are served by a background worker.
//!
//! Each click hands an owned value to the worker inside a [`WorkerRequest`];
//! the worker takes it out, and its [`WorkerResponse`] completes the round
//! trip that the click opened on the [`Controller`].

pub mod controller;
pub mod message;

pub use controller::{Controller, ControllerState, Event, RoundTrip, StaleRoundTrip};
pub use message::{work, WorkerRequest, WorkerResponse, CLICK_VALUE};
