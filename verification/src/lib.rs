//! A software FIDO/U2F authenticator presented as a virtual USB HID device.
//!
//! The crate holds the three protocol layers of the authenticator: the USB
//! control-endpoint engine with its descriptor tables (`usb`), the CTAPHID
//! framing layer with its channel table (`ctaphid`), and the U2F and CTAP2
//! command handlers (`u2f`, `ctap2`).  The PKCS#11 key store and the
//! user-consent prompt are outside collaborators: a handler that needs them
//! publishes the work as a pending request of plain values and later consumes
//! the outcome, again as plain values, so that every decision the
//! authenticator takes is made by verified code.

pub mod auth;
pub mod cbor;
pub mod ctap2;
pub mod ctaphid;
pub mod u2f;
pub mod usb;
