//! One round of a randomized push-pull membership-shuffling protocol for
//! gossip-based overlay networks: each node keeps a bounded, randomized
//! partial view of its peers and rewires it through two-message exchanges.

mod rng;

pub mod policy;
pub mod push_pull;

pub use push_pull::Node;
pub use push_pull::NodeId;
pub use push_pull::PushPullRequest;
pub use push_pull::PushPullResponse;

pub use policy::AlwaysParticipate;
pub use policy::NeverParticipate;
pub use policy::ParticipationPolicy;
pub use policy::RandomParticipation;
