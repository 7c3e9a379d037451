//! An interactive console for a remote administration protocol: the words a
//! user types become a query, replies and errors are rendered in a raw or a
//! colored form, and pushed server events are filtered and time-stamped.
//!
//! The library holds the decisions; the program around it does the reading,
//! the network and the printing.

mod clock;
pub mod events;
pub mod render;
pub mod session;
pub mod words;

pub use events::{Emit, EventDump, ItemKind, Severity};
pub use render::{Color, ErrorKind, Mode, Piece, QueryResult};
pub use session::{Action, Phase, Session};
pub use words::{Query, ValidationError};
