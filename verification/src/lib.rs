//! Loading and validation of the configuration of an input-remapping daemon:
//! device filters, virtual devices and the scripts attached to them.
//!
//! A configuration is read from an untyped document of tables, arrays and
//! scalars. Every key outside the schema, every value of the wrong shape or
//! out of range and every reference that leads nowhere is a fault, and the
//! first fault met ends the load.
//!
//! The modules whose names end in `_laws` hold no code that runs: they
//! state, and prove, what holds of every load.

pub mod error;
pub mod render;
pub mod text;
pub mod document;
pub mod schema;
pub mod codes;
pub mod codes_laws;
pub mod model;
pub mod ordered;
pub mod order_laws;
pub mod filter;
pub mod filter_laws;
pub mod axis;
pub mod axis_laws;
pub mod device;
pub mod device_laws;
pub mod script;
pub mod script_laws;
pub mod load;
pub mod load_laws;

pub use crate::codes::{AbsoluteAxis, AbsoluteAxisBit, Bus, ForceFeedback, Key, RelativeAxis};
pub use crate::document::Node;
pub use crate::error::{ConfigError, ErrorKind, Segment};
pub use crate::model::{Config, DeviceFilter, DeviceKind, DevicePreset, Script, VirtualDevice};
