//! Verified core of a community bot: the XP curve, the level-transition
//! state machine, message eligibility, role-synchronisation planning, and
//! the small economy and permission rules around them.
//!
//! Everything here is plain data logic.  Storage and the chat platform are
//! external collaborators: the surrounding binary loads records, calls into
//! this crate for every decision, and carries the results back out.

pub mod auto_roles;
pub mod curve;
pub mod economy;
pub mod eligibility;
pub mod embed;
pub mod leaderboard;
pub mod member;
pub mod num;
pub mod perms;
pub mod roles;
pub mod text;
pub mod transition;
