//! A verified model of a multi-table constraint circuit for a virtual
//! machine's execution trace: program, initial memory, memory accesses,
//! call/return frames and per-step events, tied together by a shared range
//! domain and by operation-count accounting.

pub mod trace;
pub mod error;
pub mod rtable;
pub mod itable;
pub mod imtable;
pub mod etable;
pub mod mtable;
pub mod jtable;
pub mod circuit;
pub mod soundness;
