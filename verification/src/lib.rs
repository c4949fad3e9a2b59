//! Cheatcode dispatch and idempotent script execution for deployment
//! scripts.
//!
//! A deployment script is bytecode that an interpreter runs. Where the
//! script wants something of the chain it traps into a cheatcode: a
//! selector and a buffer of felts. This library decides what becomes of the
//! trap. It decodes the request, identifies the transaction that the request
//! makes, answers from the idempotency store where an earlier run has
//! already brought that transaction onto the chain, and records what the
//! chain says where it has to be asked. Asking the chain, running the
//! interpreter and reading and writing files are left to the caller.
//!
//! - [`felt`]: field elements.
//! - [`hashing`]: identifiers of transactions.
//! - [`state`]: the idempotency store; [`document`]: its entries in the
//!   state file.
//! - [`buffer`]: reading argument buffers.
//! - [`cheatcode`]: the dispatcher and the handlers; [`extension`]: what one
//!   run owns; [`syscall`]: the syscall guard.
//! - [`replay`]: what holds of whole runs, and of runs run again.
//! - [`driver`], [`hints`], [`artifacts`]: setting up a run and reporting
//!   how it ended.
//! - [`cli`], [`requirements`]: the commands and the tools they need.
//! - [`text`]: building texts.

pub mod artifacts;
pub mod buffer;
pub mod cheatcode;
pub mod cli;
pub mod document;
pub mod driver;
pub mod extension;
pub mod felt;
pub mod hashing;
pub mod hints;
pub mod replay;
pub mod requirements;
pub mod state;
pub mod syscall;
pub mod text;
