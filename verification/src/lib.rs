//! Interrupt-safe producer/consumer handoff for a serial echo loop.
//!
//! A hardware receive interrupt (the producer) captures incoming bytes into a
//! bounded FIFO; a cooperative main loop (the consumer) drains that FIFO one
//! byte per iteration and mirrors each byte to a serial transmitter and a
//! character display, treating carriage return as a "clear and restart
//! prompt" control code.  This crate holds the verified core: the bounded
//! queue, the shared inbox lifecycle, the producer's drain step, the
//! consumer's dispatch state machine, and the linearized-history arguments
//! that pushes and pops never reorder or lose track of bytes.

pub mod console;
pub mod history;
pub mod inbox;
pub mod queue;
