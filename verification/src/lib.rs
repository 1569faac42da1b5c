//! The logic of a bridge that lets a Logitech G PRO wheel for Xbox/PC (046d:c272) work on a console
//! as its PlayStation-mode sibling (046d:c269).
//!
//! - Towards the console: the device it sees ([`device`], with the reports in [`identity`]) and the
//!   authentication that it demands ([`auth`]).
//! - Towards the wheel: what is forwarded ([`proxy`], [`input_map`]) and how a wheel that just
//!   booted is kept on ([`wake`]); or the same for another c269 ([`relay`]).
//! - Towards the licensed controller: having a nonce signed ([`signer`]).
//! - On the host port: what a device is and how it is served ([`usb_host`]), its descriptors
//!   ([`descriptor`], [`hid`], [`report_desc`]), its probing ([`probe`]), and hubs ([`hub`]).
//! - The log ([`uart_log`]), and what the rest is made of ([`bytes`], [`pace`], [`packet`],
//!   [`queue`], [`setup`]).
//!
//! Nothing here waits or talks to hardware: each function takes what happened and the time, and
//! says what to do next. What the calls do to the bytes that pass through is stated in [`laws`].

pub mod auth;
pub mod bytes;
pub mod descriptor;
pub mod device;
pub mod hid;
pub mod hub;
pub mod identity;
pub mod input_map;
pub mod laws;
pub mod pace;
pub mod packet;
pub mod probe;
pub mod proxy;
pub mod queue;
pub mod relay;
pub mod report_desc;
pub mod setup;
pub mod signer;
pub mod uart_log;
pub mod usb_host;
pub mod wake;
