pub mod baseline;
pub mod interest;

pub use baseline::{ClientBaseline, EntityBaseline};
pub use interest::{calculate_interest, get_entity_priority, DistanceBand, InterestCandidate, InterestSet, ReplicationPriority};
