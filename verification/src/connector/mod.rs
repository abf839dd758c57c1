//! Connectors reach a host; the transport they open carries the bootstrap
//! protocol of `init`.

pub mod docker_transport;
pub mod init;

use vstd::prelude::*;

verus! {

/// How to reach a host.
#[derive(Debug, Clone, PartialEq, Eq)]
pub enum Connector {
    /// A throwaway container of the image `base_image` (`name:tag`).
    DockerTest { base_image: String },
}

} // verus!
