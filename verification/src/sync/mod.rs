pub mod client;
pub mod server;

pub use client::{ClientTick, SnapshotBuffer};
pub use server::{ClientSession, ClientSessions, InputBuffers};
