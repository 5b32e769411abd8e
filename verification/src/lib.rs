//! Two small verified utilities: the pure logic of a release-automation
//! pipeline (an ordered list of fallible steps that halts at the first
//! failure, together with the manifest rewrite it performs), and the
//! greeting computed by a one-route healthcheck service.

pub mod greeting;
pub mod manifest;
pub mod pipeline;
