//! Single-operator deployment orchestration: a registry of services, the
//! build context of a project, the container runtime requests for each
//! service, and the reverse-proxy configuration of the whole fleet.

pub mod error;
pub mod text;
pub mod files;
pub mod service;
pub mod conf;
pub mod docker;
pub mod targz;
pub mod nginx;
pub mod commands;
pub mod cert;
