//! Pod lifecycle counters derived from a cluster's event stream.
//!
//! A watch notification is classified by the reason of the event it carries,
//! the two labels of a counted event are taken from the event, and the
//! matching counter of a [`registry::MetricsRegistry`] is incremented.
//!
//! - [`event`]: notifications and events, with their mathematical views.
//! - [`classify`]: the classifier, a table from reasons to actions.
//! - [`labels`]: the label extractor.
//! - [`registry`]: the counters, their laws and their text exposition.
//! - [`reconcile`]: the loop, one notification at a time, and its laws.
//! - [`text`], [`seq_find`]: helpers on strings and sequences.

pub mod classify;
pub mod event;
pub mod labels;
pub mod reconcile;
pub mod registry;
pub mod seq_find;
pub mod text;
