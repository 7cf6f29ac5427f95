//! Interactive calendar client core: the event view model, the controller's
//! decisions, date arithmetic and the notification scheduler, all verified.
use vstd::prelude::*;

pub mod api;
pub mod app;
pub mod clock;
pub mod config;
pub mod datetime;
pub mod detail;
pub mod input;
pub mod labels;
pub mod mouse;
pub mod notifications;
pub mod ordering;
pub mod refresh;
pub mod text;
pub mod theme;
pub mod view;
pub mod wrap;

verus! {

} // verus!
