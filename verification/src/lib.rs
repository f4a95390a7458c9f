//! Patches color and transparency values inside a small set of desktop
//! theme configuration files: a CSS-like GTK theme file, an XML panel
//! configuration, and `.rc` menu files.
//!
//! The crate holds the pure core: conversion of hex colors and opacity
//! fractions to textual color forms, and a pattern-substitution engine
//! that splices new values into the captured spans of fixed structural
//! anchors, leaving every other character of the text untouched.
//! Reading and writing the files themselves is the caller's business.

pub mod catalog;
pub mod color;
pub mod digits;
pub mod pattern;
pub mod text;
pub mod updates;
