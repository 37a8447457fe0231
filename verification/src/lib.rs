//! Per-tick coordinator for a colony of short-lived, host-simulated worker
//! agents. Each tick the host hands over a fresh snapshot of world state;
//! the library decides which orders to issue and how to interpret the
//! outcome codes the host reports. All host interaction (order execution,
//! entity resolution, persistence) is the caller's job: the library works
//! on plain values and is verified.

pub mod codes;
pub mod console;
pub mod energy_distributer;
pub mod hive;
pub mod id_generator;
pub mod memory;
pub mod mine_room;
pub mod spawn_room;
pub mod tasks;
pub mod world;
