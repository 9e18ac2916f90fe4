//! In-memory calendar/weather aggregation and e-paper page rendering.
//!
//! The crate keeps a date-keyed snapshot of holidays and events together with
//! the current weather, merges freshly fetched feed records into it while
//! tracking whether anything changed, and renders a bounded window of that
//! snapshot into a fixed 400x300 raster image encoded for an e-paper panel.

pub mod date;
pub mod model;
pub mod text;
pub mod store;
pub mod tz;
pub mod ics;
pub mod canvas;
pub mod layout;
pub mod render;
