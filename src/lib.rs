//! Error trees: typed error values that wrap one another as they cross boundaries,
//! each keeping the earlier errors as its causes, with context attached to any of
//! them, payloads that can be recovered as their own types, and two text reports.
use vstd::prelude::*;

pub mod erased;
pub mod exn;
pub mod ext;
pub mod frame;
pub mod interop;
pub mod iterator;
pub mod location;
pub mod report;
pub mod view;

pub use erased::ErasedValue;
pub use exn::Exn;
pub use ext::ok;
pub use ext::OptionExt;
pub use ext::ResultExt;
pub use frame::ContextValue;
pub use frame::ErasedContextValue;
pub use frame::ErasedErrorValue;
pub use frame::Error;
pub use frame::ErrorValue;
pub use frame::Frame;
pub use interop::from_anyhow;
pub use interop::from_messages;
pub use interop::AnyhowError;
pub use iterator::IteratorExt;
pub use location::Location;
pub use report::Compact;
pub use report::DisplayExn;
pub use report::Native;
pub use view::ContextView;
pub use view::ContextViewMut;
pub use view::ExnView;
pub use view::ExnViewMut;
pub use view::Visitor;
pub use view::VisitorMut;

verus! {

} // verus!
