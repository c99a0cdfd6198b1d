//! A small record-tracking library: a verified persistence core around a
//! relational store. Entities are `Registration` records; mutations are
//! queued in memory as a unit of work and drained in order on commit.

pub mod datetime;
pub mod entity;
pub mod repo;
pub mod store;
