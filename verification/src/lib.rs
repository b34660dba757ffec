//! Wedding invitation RSVP management.
//!
//! The library keeps invitee records (name, RSVP status, dietary
//! requirements) and invitations (a primary invitee plus the dependents
//! linked to it through a parent/child relation table).

pub mod api;
pub mod db;
pub mod lambda;
pub mod func;
pub mod mem;
pub mod models;
