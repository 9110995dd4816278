//! The action handlers: each consumes parsed command content and produces
//! reply text or a delivery plan.
pub mod deepseek;
pub mod help;
pub mod timer;
pub mod weather;
