//! In-memory model layer for a smart-home group controller: device groups
//! with unique membership, and the policy vocabulary (device-type filters,
//! name-match modes) used by an external resolver.

pub mod config;
pub mod group;
pub mod policy;

pub use config::Configuration;
pub use group::DeviceGroup;
pub use group::GroupError;
pub use policy::DeviceTypeFilter;
pub use policy::MatchMode;
