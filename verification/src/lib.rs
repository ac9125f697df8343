//! Core of an interactive 2D street-map editor: a planar street graph with
//! intersections, streets and districts, an enclosed-face tracer, an
//! undo/redo action engine, an interaction-mode state machine, and the
//! editor shell (shortcuts, toolbars, plugins) around them.

pub mod geom;
pub mod actions;
pub mod editor;
pub mod graph;
pub mod modes;
pub mod options;
pub mod plugins;
pub mod tracer;
pub mod ui;
