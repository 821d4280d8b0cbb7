//! Batch file cipher driver: file catalog, output naming, cipher command
//! arguments and the job pool that workers drain.

pub mod error;
pub mod text;
pub mod catalog;
pub mod naming;
pub mod cipher;
pub mod pool;
pub mod run;
