//! A verified selection/submission state machine for attaching a user
//! account to one of several administrative groups.
//!
//! The library models the core of a group-assignment widget: a catalog of
//! groups fetched once from a backend, the derived subset the operator may
//! still choose from, the single current selection, and the mutual
//! exclusion between "a request is in flight" and "the operator may
//! submit". Transport and rendering stay with the caller, which drives
//! [`controller::AddUserToGroupComponent`] by delivering messages and
//! performing the effects it returns.

pub mod controller;
pub mod group;

pub use controller::AddUserToGroupComponent;
pub use controller::Effect;
pub use controller::Msg;
pub use controller::Props;
pub use group::Group;
