//! A home battery controller: what to do with a battery, given what the house
//! draws from the grid.

pub mod address;
pub mod allocate;
pub mod analyze;
pub mod announce;
pub mod backpressure;
pub mod battery;
pub mod binary64;
pub mod calendar;
pub mod cli;
pub mod clock;
pub mod command;
pub mod commands;
pub mod config;
pub mod controller;
pub mod device;
pub mod engine;
pub mod event;
pub mod grid_power;
pub mod journal;
pub mod json;
pub mod knobs;
pub mod ledger;
pub mod models;
pub mod mqtt;
pub mod number;
pub mod prediction;
pub mod publish;
pub mod ratio;
pub mod rawlog;
pub mod registry;
pub mod replay;
pub mod rte;
pub mod run;
pub mod saving;
pub mod setting;
pub mod simulation;
pub mod text;
pub mod toml_tree;
pub mod units;
pub mod world;
