//! Installing DLSS 5 neural rendering into a game with one click: what is
//! decided, computed and written, without the network, the disk and the screen.
//!
//! A program round this library inspects a game, hands over what it found as
//! plain values, and carries out what comes back: the steps of an install and
//! what each of them fetches, extracts and writes; what is taken out again; what
//! a session's logs say went wrong; and the bundle for a bug report.
//!
//! Texts are modelled as sequences of characters, archives as sequences of
//! bytes, a game folder as its files and folders. Every function says over these
//! models what it returns; what holds of several functions together is stated
//! by the proof functions whose names start with `law_`. What is believed of
//! code from outside stands in [`outside`] and [`archive`].

// Text.
pub mod text;
pub mod number;
pub mod lines;
pub mod message;
pub mod order;
pub mod lang;

// What is known of a game and its machine.
pub mod game;
pub mod gpu;
pub mod ngx;
pub mod paths;
pub mod folder;
pub mod text_laws;

// Code from outside.
pub mod outside;
pub mod archive;

// Installing.
pub mod ini;
pub mod releases;
pub mod releases_laws;
pub mod quality_preset;
pub mod plan;
pub mod install;
pub mod install_laws;
pub mod steps;
pub mod steps_laws;
pub mod consumers;
pub mod config;
pub mod traa;
pub mod opti;
pub mod opti_laws;
pub mod dgvoodoo;
pub mod dgvoodoo_laws;
pub mod dgvoodoo_template;

// Removing, diagnosing, reporting.
pub mod uninstall;
pub mod uninstall_laws;
pub mod removal_laws;
pub mod diagnose_text;
pub mod diagnose;
pub mod diagnose_laws;
pub mod report;
pub mod report_laws;
