//! Classification of systemd units: the kind of a unit from the path of its
//! unit file, its enablement state from the message that the bus returns, and
//! the description from the text of its unit file.

pub mod description;
pub mod error;
pub mod path;
mod text;
pub mod unit;
pub mod unit_state;
pub mod unit_type;

pub use description::get_unit_description;
pub use error::UnitError;
pub use unit::SystemdUnit;
pub use unit_state::{UnitState, PAYLOAD_OFFSET};
pub use unit_type::UnitType;
