//! An ingress for Minecraft servers that run in a Kubernetes cluster.
pub mod address;
pub mod deploy_cache;
pub mod ingress;
pub mod kube_cache;
pub mod kubernetes;
pub mod mc_api;
pub mod mc_server;
pub mod opaque_error;
pub mod packets;
pub mod server;
pub mod session;
pub mod session_laws;
pub mod text;
pub mod types;
pub mod watcher;
