//! Core logic of a handheld CAN-bus recorder and replayer: the frame log codec, the bounded
//! frame queues, the screen state machine and the decisions that tie them to the bus and to
//! storage.

pub mod buttons;
pub mod can;
pub mod dir;
pub mod display;
pub mod queue;
pub mod sd;
pub mod state;
pub mod tasks;
