//! Managed rooms of a multiplayer rhythm-game server.
//!
//! A *reserved* room is booked once for a fixed list of players. A *hosted* room lives across
//! rounds, survives being empty and is restored after a restart. The crate holds the rules for
//! both: what a definition must satisfy, how it is brought into normal form, what each
//! administrative operation does to the rooms and in which order, and what it is answered.
pub mod admin;
pub mod admin_laws;
pub mod answer;
pub mod answer_laws;
pub mod callback;
pub mod decision_laws;
pub mod definition;
pub mod definition_laws;
pub mod event;
pub mod ids;
pub mod json;
pub mod patch;
pub mod persistence;
pub mod plan;
pub mod plan_laws;
pub mod registry;
pub mod restart_laws;
pub mod room_id;
pub mod runtime;
pub mod runtime_laws;
pub mod text;
pub mod world;
pub mod world_laws;
