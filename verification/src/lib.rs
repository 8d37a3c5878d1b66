//! The core of a live traffic inspector for a message bus: the record of an
//! observed message, the bounded store that retains records, the query
//! pipeline that filters, groups and sorts them, and the formatter that
//! turns a payload into readable lines.
//!
//! The modules, from the leaves up:
//!
//! - `text`, `keyed`: texts as character sequences, and lists under text keys;
//! - `value`, `format`: the payload tree and the formatter of it;
//! - `bus`, `identity`: the record of a message and the process behind an
//!   endpoint;
//! - `store`, `filter`, `order`, `grouping`, `window`: the retention store
//!   and the stages of the query pipeline;
//! - `detail`: the detail view of one record;
//! - `state`, `event`: the state of the inspector, the refresh that runs the
//!   pipeline over it, and the handling of keys.

pub mod bus;
pub mod detail;
pub mod event;
pub mod filter;
pub mod format;
pub mod grouping;
pub mod identity;
pub mod keyed;
pub mod order;
pub mod state;
pub mod store;
pub mod text;
pub mod value;
pub mod window;

pub use bus::{BusType, GroupingType, Header, Item, ProcessIdentity, UnknownGrouping};
pub use detail::{Body, DetailLine, Span, Tone};
pub use event::{handle_event, Action, Key};
pub use filter::FilterCriteria;
pub use format::{format_value, LineStyle, StyledLine};
pub use identity::IdentityCache;
pub use state::{App, ListState, Mode};
pub use store::RetentionStore;
pub use value::Value;
pub use window::Row;
