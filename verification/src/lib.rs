//! Installing the preset plugins of a desktop shell.
//!
//! The shell installs, upgrades and removes plugins by running
//! `dsh plugin --profile web add|remove <package>`, which drives pnpm. This crate
//! holds every decision on the way: which plugins are installed and in what
//! order, which pnpm is used, what is written to `pnpm-workspace.yaml` when pnpm
//! refuses a build, when a plugin is tried again, and what is reported. The
//! shell does what a run asks for and hands back what came of it.

pub mod allow_builds;
pub mod allow_builds_laws;
pub mod boot;
pub mod cancel;
pub mod command;
pub mod install;
pub mod install_laws;
pub mod install_step_laws;
pub mod manage;
pub mod number;
pub mod number_laws;
pub mod pnpm;
pub mod report;
pub mod selection;
pub mod text;
pub mod text_laws;
pub mod text_lemmas;
pub mod workspace;
pub mod workspace_form_laws;
pub mod workspace_laws;
