//! A read-through, write-through cache for cutouts of volumetric image
//! channels kept by a remote service.
//!
//! Channels are tiled by cuboids of a fixed size; each cuboid is stored as
//! one block of raw voxels. A cutout is cut into the windows it has in the
//! cuboids it touches ([`cuboids`]), served block by block from the blocks
//! at hand or, failing that, from the next layer, and whatever was fetched
//! is written back ([`data_manager`], [`blocks`]). What a whole read and a
//! whole write do to the stored blocks is followed in [`store`]. The cuboids
//! that requests touch are counted, and the least recently used are evicted
//! once the cache holds too many ([`usage_tracker`], [`db`]).
//!
//! The library decides; it does not touch files, sockets or databases. Its
//! callers do that for it, one step at a time, and hand back what they
//! found.
pub mod api;
pub mod blocks;
pub mod config;
pub mod cuboids;
pub mod data_manager;
pub mod db;
pub mod intern;
pub mod layout;
pub mod store;
pub mod text;
pub mod usage_tracker;
pub mod volume;
