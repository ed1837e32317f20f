//! A shared-memory request/response pipe between one request-issuing owner
//! (possibly multithreaded) and one single-threaded worker.
//!
//! The transport rests on two single-producer/single-consumer byte rings in a
//! shared region, a magic-based readiness handshake, a counting wakeup
//! primitive per direction, and a ticket discipline that serves responses to
//! owner threads strictly in request-issue order.

pub mod frame;
pub mod order;
pub mod owner;
pub mod region;
pub mod ring;
pub mod sem;
pub mod session;
pub mod spin;
pub mod worker;

pub use frame::ProtocolViolation;
pub use order::UnparkInOrder;
pub use owner::OwnedRequester;
pub use region::create;
pub use region::AttachError;
pub use region::Created;
pub use region::Joined;
pub use region::MMapped;
pub use region::RawSharedMemPipe;
pub use ring::Ring;
pub use sem::Semaphore;
pub use spin::SpinWait;
pub use worker::OwnedResponder;
