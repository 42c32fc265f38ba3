//! Local development clusters for Navigator: what to create, what to wait for,
//! what to store, and how to reach a sandbox once the cluster runs.
pub mod text;
pub mod lines;
pub mod numbers;
pub mod lossy;
pub mod paths;
pub mod cluster;
pub mod docker;
pub mod exec;
pub mod poll;
pub mod kubeconfig;
pub mod merge;
pub mod yaml;
pub mod gateway_tls;
pub mod codec;
pub mod mtls;
pub mod bundle_store;
pub mod deploy;
pub mod destroy;
pub mod handle;
pub mod deploy_plan;
pub mod shell;
pub mod ssh;
pub mod proxy;
pub mod cli;
