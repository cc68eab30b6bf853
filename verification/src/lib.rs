//! Verified core of the Onyx Launcher: the app list, the search filter,
//! the drawer's state machine, window placement, icon file formats and the
//! names the instances coordinate through.
pub mod resource_icon;
pub mod text;
pub mod config;
pub mod drawer;
pub mod geometry;
pub mod icon;
pub mod instance;
pub mod category;
