//! An in-process substrate for event-driven programs.
//!
//! Two capabilities carry everything:
//! - [`Receive`](receive::Receive): an event is handed over and answered with a
//!   [`ReceiverResult`](receive::ReceiverResult);
//! - [`View`](view::View): an event is shown, and the viewer may ask to be
//!   removed with [`DeleteView`](view::DeleteView).
//!
//! Around them stand three containers:
//! - [`RcLinker`](rc_linker::RcLinker) and [`ArcLinker`](arc_linker::ArcLinker)
//!   own a slot and hand out [`RcLinked`](rc_linker::rc_linked::RcLinked) and
//!   [`ArcLinked`](arc_linker::arc_linked::ArcLinked) handles to it; when the
//!   linker is dropped the slot is emptied, and every handle answers
//!   [`Delete`](receive::ReceiverResult::Delete) from then on;
//! - [`Exposed`](exposed::Exposed) shows every event to its viewers before the
//!   receiver gets it;
//! - [`Router`](router::Router) passes every event through a chain of
//!   interceptors before the receiver gets it, and cuts out of the chain any
//!   interceptor that answers `Delete`.
//!
//! A receiver that answers `Delete` hands the event back: everything before it
//! has run, and the caller goes on as if that receiver had not been there.  A
//! receiver that answers `Stop` ends the delivery: nothing after it runs.
//!
//! # What is proved
//!
//! Every receiver says in [`delivers`](receive::Receive::delivers) what a
//! delivery may do to it and what it may answer, and every viewer says the same
//! in [`shows`](view::View::shows).  The containers state their own behaviour
//! over those relations: [`passes`](intercept::passes) for a chain,
//! [`observed`](exposed::observed) for the viewers of an exposure,
//! [`delivered`](slot::delivered) for a slot.  [`laws`] holds what follows for
//! every chain, router and exposure.
//!
//! Two things are taken on trust, and kept apart: the shared cells of std that
//! the slots stand in ([`cells`]), and the map that gives out the ids of
//! viewers ([`viewers`]).

pub mod arc_linker;
pub mod cells;
pub mod exposed;
pub mod intercept;
pub mod laws;
pub mod multi_router;
pub mod rc_linker;
pub mod receive;
pub mod router;
pub mod slot;
pub mod view;
pub mod viewers;

pub use counted_map;
