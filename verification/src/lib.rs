//! An in-process execution runtime for account-based contract programs:
//! deterministic program-derived addressing, a shared account store with
//! aliasable per-call views, an invocation scope that drives cross-program
//! calls under privilege and call-depth rules, a built-in system program
//! behind a rent-exemption gate, bundled token programs, sample contracts,
//! and a lazily synchronized typed-account cache for fixtures.
//!
//! A top-level `Program::invoke_with_bytes` builds a fresh `Scope` over a
//! supplied set of account records and dispatches into the program's
//! package; nested calls re-enter the same scope's dispatcher, so one
//! store and one call stack serve the whole call tree.
//!
//! Packages form a closed set: the system program and the bundled inline
//! modules. A module loaded from a dynamic library at run time cannot be
//! registered in this dispatcher; the loader that runs such modules
//! directly lives outside the verified library.

pub mod account;
pub mod account_info;
pub mod cluster_settings;
pub mod codec;
pub mod counter;
pub mod descriptor;
pub mod errors;
pub mod instruction;
pub mod invoke;
pub mod laws;
pub mod log;
pub mod package;
pub mod pool;
pub mod program;
pub mod program_ids;
pub mod pubkey;
pub mod receipt;
pub mod scope;
pub mod spl;
pub mod system_instruction;
pub mod system_program;
pub mod typed_account;
pub mod utils;
pub mod viewer;
