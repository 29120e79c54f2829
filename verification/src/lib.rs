//! The core of a customer-service assistant for a small business: taking
//! the operator on board, composing the system prompt, and running the
//! conversation with its training mode.
//!
//! The library never reads a line, sends a request or prints. `onboarding`
//! and `session` are state machines: their caller carries out the action
//! that a step returns and hands in what came of it as the next event.
//! Every function is verified against the contract it carries; the few
//! calls that are taken on trust are marked as such where they stand.

pub mod backend;
pub mod clock;
pub mod number;
pub mod onboarding;
pub mod profile;
pub mod prompt;
pub mod sentiment;
pub mod session;
pub mod system_prompt;
pub mod text;
pub mod views;
