//! Privacy Aperture: the rules, validation and state machines of a local
//! privacy dimmer that covers protected applications with black overlays
//! and can lower the panel's hardware brightness.
pub mod brightness;
pub mod command_center;
pub mod domain;
pub mod foreground;
pub mod overlay;
pub mod protection;
pub mod storage;
pub mod text;
