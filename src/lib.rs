//! A suspend-until-admitted waiter in front of a shared rate limiter.
//!
//! The waiter is a state machine: its driver hands it events (a scheduling
//! attempt, the outcome of a limiter check, the readiness of the timer) and
//! performs the actions it asks for (check the limiter, re-arm the timer,
//! poll the timer, resolve, or stay suspended).

pub mod waiter;

pub use waiter::{Action, Event, Waiter, Next, Phase, Stage};
