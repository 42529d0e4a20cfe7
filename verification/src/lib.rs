//! The rules by which an AUR helper fetches build recipes, searches the AUR
//! and backs up the package cache.
//!
//! Nothing here reads a directory, asks the network or runs a program: the
//! functions take what was read and say what is to be done. `partition` sorts
//! the packages asked for by what is cloned and what the AUR knows, `sync`
//! plans clones and pulls and sums up how they went, `batch` keeps the
//! successes and failures of a run apart, `aur` filters and ranks search
//! results and describes packages, and `cache` describes cached packages and
//! plans a backup. `order`, `text` and `paths` hold the sorting and the work
//! on text below them, and `report` what is told to the user.

pub mod aur;
pub mod batch;
pub mod cache;
pub mod order;
pub mod partition;
pub mod paths;
pub mod report;
pub mod sync;
pub mod text;
