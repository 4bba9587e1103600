//! The decisions of a module manager: which modules handle a URL, which
//! modules the package indexes list, and how a module is installed from a
//! release, upgraded and removed.
//!
//! The library computes and decides; it neither reads nor writes files and
//! makes no requests. Callers hand in what they have read and carry out what
//! they are told.

pub mod commands;
pub mod layout;
pub mod links;
pub mod manifest;
pub mod normalization;
pub mod pattern;
pub mod registry;
pub mod resolver;
pub mod text;
