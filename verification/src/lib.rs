//! Credential-testing engine for SSH services: word-list handling, the
//! credential space and its partition into chunks, the worker and
//! orchestrator state machines, and report assembly.

pub mod types;
pub mod space;
pub mod worker;
pub mod orchestrator;
pub mod pool;
pub mod wordlist;
pub mod keys;
pub mod probe;
pub mod report;
pub mod channels;
pub mod inline;
