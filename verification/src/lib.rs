//! Host configuration management: model documents, host inventories, and the
//! bootstrap protocol that installs and starts a worker on a remote host.

pub mod text;
pub mod model;
pub mod connector;
pub mod inventory;
pub mod worker;
