//! A verified core for an events/locations/tags catalog frontend:
//! pagination arithmetic and navigation decisions, day-bucketing of event
//! listings, an iCalendar export with a proved parse round trip, decimal
//! parsing and rendering, the template helpers' computations, and the
//! classification of backend replies. Calendar-date conversion and random
//! identifiers come from outside crates through trusted wrappers.

pub mod backend;
pub mod civil;
pub mod days;
pub mod helper;
pub mod ics;
pub mod models;
pub mod numfmt;
pub mod pagination;
pub mod strutil;
