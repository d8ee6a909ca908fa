//! A fixed-size worker pool, written so that every decision it takes is
//! stated in a contract and proved.
//!
//! The pool's shared job queue is [`channel::Channel`], its owner side is
//! [`pool::ThreadPool`], and what one worker does with one message is
//! [`worker::serve`].  Starting and joining operating-system threads is left
//! to the embedding program, which hands the pool a function for each.
//!
//! [`protocol`] takes channel, workers and owner together as one state that
//! moves in steps.  [`safety`] proves what holds of every state such steps
//! can reach: no job is lost, none runs twice, and a joined pool has run them
//! all.  [`progress`] proves that a pool which shuts down is never stuck and
//! comes to its end.  [`http`] holds what the pool's jobs decide when the
//! pool serves web pages.

pub mod message;
pub mod channel;
pub mod worker;
pub mod pool;
pub mod protocol;
pub mod safety;
pub mod progress;
pub mod http;
