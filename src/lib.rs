//! Attaching context to errors: context selectors, the combinators that
//! pair an underlying error with its context, backtraces, and the model of
//! an error taxonomy from which selectors and display templates are derived.
use vstd::prelude::*;

pub mod compat;
pub mod context;
pub mod display;
pub mod error;
pub mod generate;
pub mod schema;
pub mod template;
pub mod trace;

pub use compat::ErrorCompat;
pub use context::{Context, ResultExt};
pub use trace::Backtrace;

verus! {

} // verus!
