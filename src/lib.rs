//! Selection and publication of recorded programmes as a podcast feed.
//!
//! The library decides which recorded file each query publishes, under which
//! name and by which method, what link each feed entry carries, and what the
//! feed document is. Walking the disk, copying, converting and changing
//! ownership are done by the caller, which reports each outcome back.

pub mod matcher;
pub mod selector;
pub mod publisher;
pub mod feed;
pub mod pipeline;
