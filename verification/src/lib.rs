//! A server that offers the LIFX HTTP API for bulbs on the local network,
//! speaking the LIFX LAN protocol to them: the verified core.
//!
//! - [`text`]: searching, splitting and number reading over characters.
//! - [`color`]: HSBK colors and the reading of `color` request strings.
//! - [`refresh`]: bulb state that goes stale.
//! - [`lan`]: the LAN messages sent and read, through lifx-rs.
//! - [`bulb`]: one bulb's state and how messages change it.
//! - [`manager`]: the table of bulbs and the queries it sends.
//! - [`api`]: authorization, routing, selection and `SetState` plans.
pub mod text;
pub mod color;
pub mod lan;
pub mod refresh;
pub mod bulb;
pub mod manager;
pub mod api;

pub use api::Config;
pub use bulb::{LifxGroup, LifxLocation};
pub use color::LifxColor;
