//! Windowed-scrolling engine for a two-pane terminal file browser: a
//! selection/scroll viewport over a backing sequence, an ordered directory
//! listing, a sliding window of line-start byte offsets for paging through a
//! file without loading it whole, and the key-dispatch and layout rules that
//! tie them together. Terminal rendering and all filesystem reads live
//! outside this crate; they hand plain values in and take plain values back.

pub mod dispatch;
pub mod layout;
pub mod line_model;
pub mod line_window;
pub mod listing;
pub mod order;
pub mod scan;
pub mod viewport;
