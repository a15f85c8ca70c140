//! Reconciliation of two music-track catalogs.
//!
//! A "source" catalog (an ordered playlist from a streaming service) is mapped
//! onto a "target" catalog (the full library of a self-hosted media server):
//! for every source track, in order, the fuzzy matcher looks for a target
//! track that denotes the same song despite metadata differences between the
//! services.  Tracks that cannot be matched are dropped from the final,
//! order-preserving output.
//!
//! The crate holds the track data model, the weighted match scorer, the
//! paginated catalog-fetch state machine and the reconciliation pipeline;
//! network access and the interactive prompt live with the callers.

pub mod fetch;
pub mod matching;
pub mod reconcile;
pub mod record;
pub mod text;
pub mod track;
