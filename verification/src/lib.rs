//! Command-line logic of the vzctl devstack supervisor: option parsing,
//! identifiers, network and cloud-init rendering, apply plans and progress tracking.
pub mod text;
pub mod hash;
pub mod order;
pub mod progress;
pub mod progress_laws;
pub mod skill;
pub mod services;
pub mod observability;
pub mod route;
pub mod reconciler;
pub mod cli;
pub mod network;
pub mod vm;
pub mod stack;
pub mod port;
pub mod mounts;
pub mod oidc;
pub mod ui;
pub mod deps;
pub mod doctor;
pub mod cloud_config;
pub mod adopt;
pub mod converge;
pub mod events;
pub mod step_run;
pub mod version;
pub mod user_data;
pub mod json;
