//! A deterministic-simulation substrate for concurrent, networked applications.
//!
//! The crate provides the verified core of a single-threaded deterministic
//! runtime: a virtual clock that advances only when no task can make progress,
//! a timer queue with first-in-first-out tie-breaking, a cooperative scheduler,
//! an in-memory network (listener registry and buffered byte streams), and a
//! seeded fault injector that perturbs that network with extra latency and
//! forced disconnects. Every transition of the engine is a function of the
//! current state, the operation issued, and the seed, so a run is reproducible
//! bit for bit from its seed and its operation order.
//!
//! Asynchronous plumbing (futures, wakers, the polling loop) lives outside the
//! crate; it drives the engine through the state-transition methods offered
//! here and performs no scheduling decision of its own.

pub mod clock;
pub mod fault;
pub mod net;
pub mod rt;
pub mod sched;
pub mod timer;
