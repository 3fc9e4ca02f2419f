//! Connection bookkeeping and command protocol of a Bluetooth LED-strip
//! gateway: the text commands exchanged with the Bluetooth manager, the
//! websocket session registries, the device list and scan state, and the
//! coordination of the device-list pollers.

pub mod command;
pub mod device;
pub mod http;
pub mod keyed;
pub mod poller;
pub mod scan;
pub mod stream;
pub mod sessions;
pub mod text;
