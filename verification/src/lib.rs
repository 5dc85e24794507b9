pub mod arguments;
pub mod captcha;
pub mod config;
pub mod executor;
pub mod requesthandler;
pub mod generator;
pub mod json;
pub mod methods;
pub mod persistence;
pub mod rng;
pub mod strutil;
pub mod session;
pub mod validation;
