//! The engine of a browser-driven search run, without the browser.
//!
//! A run submits a list of queries to a search engine, one after the other,
//! pages through each result listing and records what every page lists. It
//! paces itself like a person, starts every query on a fresh browser
//! identity, and carries on after failures.
//!
//! This crate decides what is to be done when; it performs nothing. The
//! [`engine::Engine`] names one [`protocol::Action`] at a time, a driver
//! carries it out and answers with a [`protocol::Event`]. What the engine
//! does is given by the transition function [`model::next`]; [`soundness`]
//! shows what every state of a run has in common, and [`laws`] holds what is
//! proved of every run.

pub mod config;
pub mod dice;
pub mod engine;
pub mod evasion;
pub mod extract;
pub mod humanize;
pub mod laws;
pub mod lifecycle;
pub mod model;
pub mod pagination;
pub mod plan;
pub mod protocol;
pub mod query;
pub mod report;
pub mod results;
pub mod soundness;
pub mod text;
