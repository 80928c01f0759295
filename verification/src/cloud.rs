pub mod account;
pub mod acting;
pub mod actions;
pub mod answering;
pub mod asking;
pub mod assets;
pub mod auth;
pub mod calls;
pub mod catalog;
pub mod client;
pub mod configuration;
pub mod export_copy;
pub mod failures;
pub mod following;
pub mod fresh;
pub mod generation;
pub mod imports;
pub mod intents;
pub mod keeping;
pub mod library;
pub mod mentioning;
pub mod mentions;
pub mod personal;
pub mod personal_actions;
pub mod picker;
pub mod preview;
pub mod preview_fixtures;
pub mod preview_validation;
pub mod references;
pub mod requests;
pub mod results;
pub mod reusing;
pub mod rows;
pub mod serving;
pub mod session;
pub mod signing;
pub mod steps;
pub mod studio;
pub mod submissions;
pub mod tasks;
pub mod teams;
pub mod templates;
pub mod uploads;
