pub mod appearance;
pub mod battleye;
pub mod client_config;
pub mod config_ini;
pub mod converter;
pub mod dat_reader;
pub mod lua;
pub mod mapper;
pub mod reorganize;
pub mod rsa;
pub mod sheets;
pub mod sorting;
pub mod staticdata;
pub mod spr_reader;
pub mod text;
pub mod versions;
