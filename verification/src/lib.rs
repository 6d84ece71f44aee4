//! Decision core of an Android cache cleaning daemon.
pub mod assoc;
pub mod numerals;
pub mod paths;
pub mod sorting;
pub mod text;

pub mod config;
pub mod config_pipeline;
pub mod domain;
pub mod error;

pub mod hardware;
pub mod platform;

pub mod audit;
pub mod auth;
pub mod catalog;
pub mod engine;
pub mod executor;
pub mod fs;
pub mod pipeline;
pub mod planner;
pub mod policy;
pub mod postcondition;
pub mod recovery;
pub mod resource;
pub mod safety;
pub mod scanner;

pub mod cli;
pub mod ipc;
