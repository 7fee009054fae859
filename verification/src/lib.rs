//! Check whether externally versioned artifacts referenced by workflow
//! files (container images, source-host actions) have newer versions
//! available.
//!
//! The heart of the crate is the version-resolution cache in [`resolver`]:
//! a serialized state machine that guarantees at most one outstanding
//! upstream fetch per resource and fans the result out to every waiter.
//! Around it stand the [`resource`] identifier grammar, the [`version`]
//! ordering model, the per-kind [`updater`] strategies that turn upstream
//! response bodies into version lists, and the [`entity`] glue that decides
//! whether a usage site is outdated and what text replaces it.

pub mod cmd;
pub mod entity;
pub mod error;
pub mod processor;
pub mod resolver;
pub mod resource;
pub mod updater;
pub mod version;
