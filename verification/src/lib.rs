//! Toast notifications for a browser user interface: the notification record,
//! an ordered store of `(payload, rank)` entries with rank-gated visibility,
//! the cookie under which the store persists, and the dismissal life cycle
//! of a rendered toast.

pub mod cookie;
pub mod dismiss;
pub mod laws;
pub mod layout;
pub mod store;
pub mod text;
pub mod toast;
