//! An elastic worker-thread pool's verified core: the double-ended task queue
//! storage, the worker registry, and the pool's scheduling decisions.

pub mod link_list;
pub mod pool;
pub mod registry;
pub mod laws;
