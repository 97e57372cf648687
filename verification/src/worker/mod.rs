//! The coordinator's worker system: agent registration and selection, the
//! meaning of agent replies, and the routing of jobs between agents and
//! local processors.
pub mod coordinator;
pub mod dispatch;
