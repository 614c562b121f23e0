//! Core logic of a client for a competitive-matchmaking platform: human-readable
//! formatting of quantities, normalization of statistic records, and a rate-paced
//! sequence generator.
pub mod democracy;
pub mod humanize;
pub mod mapping;
pub mod matches;
pub mod nickname;
pub mod rate_limit;
pub mod room;
pub mod room_stats;
pub mod text;
