//! Typed CalDAV query filters (RFC 4791, section 9.7) and their XML
//! rendering, with a compact notation for writing them: `dsl` parses the
//! notation and expands it to builder calls, `interpret` builds the tree it
//! describes.
pub mod calendar;
pub mod dsl;
pub mod filter;
pub mod interpret;
pub mod mkcalendar;
pub mod time;

pub use calendar::Calendar;
pub use filter::{CompFilter, Filter, IsNotDefined, Param, ParamFilter, PropFilter, TextMatch};
pub use mkcalendar::Mkcalendar;
pub use time::{TimeRange, UtcDateTime};
