pub mod text;
pub mod logging;
pub mod paths;
pub mod auth;
pub mod instances;
pub mod model;
pub mod server;
pub mod libvirt;
pub mod seed;
pub mod net;
pub mod config;
pub mod settings;
pub mod storage;
pub mod startup;
pub mod random;
