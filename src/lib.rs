//! The bookkeeping of a fixed-size worker pool: the shared task queue, the
//! per-worker life cycle and the owner's teardown protocol. Threads, locks and
//! the tasks themselves are supplied by the embedding program; every decision
//! about what a worker or the owner does next is made, and proved, here.
pub mod queue;
pub mod worker;
pub mod dispatcher;
pub mod workers;
