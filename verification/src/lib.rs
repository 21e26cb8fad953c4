//! Verified core of an agent runtime.

pub mod adapters;
pub mod apply;
pub mod builder;
pub mod capability;
pub mod column;
pub mod commit_model;
pub mod commit_store;
pub mod commit_tools;
pub mod control;
pub mod correlate;
pub mod debug;
pub mod debug_form;
pub mod defaults;
pub mod discovery;
pub mod dispatch;
pub mod drive;
pub mod driver;
pub mod effect;
pub mod error_text;
pub mod executor;
pub mod extension;
pub mod fold;
pub mod handle;
pub mod identity;
pub mod ingest;
pub mod json;
pub mod laws;
pub mod laws_agents;
pub mod laws_budget;
pub mod laws_builder;
pub mod laws_commands;
pub mod laws_commits;
pub mod laws_details;
pub mod laws_discovery;
pub mod laws_effects;
pub mod laws_facade;
pub mod laws_governance;
pub mod laws_integrity;
pub mod laws_messages;
pub mod laws_outputs;
pub mod laws_passes;
pub mod laws_reach;
pub mod laws_requests;
pub mod laws_responses;
pub mod laws_restore;
pub mod laws_results;
pub mod laws_rounds;
pub mod laws_runs;
pub mod laws_snapshots;
pub mod laws_systems;
pub mod lifecycle;
pub mod message;
pub mod normalize;
pub mod numeric;
pub mod patch;
pub mod persisted;
pub mod policy;
pub mod policy_stage;
pub mod prepare_model;
pub mod prepare_store;
pub mod publish;
pub mod queue;
pub mod reconcile;
pub mod report;
pub mod response;
pub mod restore;
pub mod run;
pub mod runtime;
pub mod schedule;
pub mod snapshot;
pub mod sorting;
pub mod spawn;
pub mod spawn_domain;
pub mod streams;
pub mod text;
pub mod text_map;
pub mod transcript;
pub mod unique;
pub mod world;
