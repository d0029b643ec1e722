//! Onboard-profile control for HID++ gaming devices.
//!
//! A gaming device either runs a profile stored in its own flash or takes its
//! settings from the host. This crate holds the decisions around that choice and
//! around the reads and writes that it needs:
//!
//! - [`profiles`] and [`feature`]: the profile types, and the HID++ feature that
//!   reports and sets them, with its directory format.
//! - [`diag`]: the round-trip diagnostic of a device.
//! - [`load`], [`device_read`] and [`state`]: what is known of each device, how
//!   reads end, and how a change is saved, sent, shown and confirmed.
//! - [`profiles_panel`] and [`dpi_panel`]: what the panels show and which reads
//!   they start.
//! - [`dpi`], [`smartshift`], [`lighting`], [`write`] and [`error`]: device
//!   settings, their encodings and why an exchange fails.
//! - [`assets`] and [`depot`]: when device art is synced and what is fetched.
//! - [`scripted`]: devices that answer from a script.
//! - [`device`], [`keyed`] and [`text`]: keys and routes, collections and
//!   rendering.
//!
//! Nothing here performs I/O. Where outside work alternates with decisions, a type
//! such as [`diag::Diagnostic`], [`feature::DirectoryRead`] or
//! [`depot::DepotSync`] says what is needed next and takes what came back.

pub mod assets;
pub mod depot;
pub mod device;
pub mod device_read;
pub mod diag;
pub mod dpi;
pub mod dpi_panel;
pub mod error;
pub mod feature;
pub mod keyed;
pub mod lighting;
pub mod load;
pub mod profiles;
pub mod profiles_panel;
pub mod scripted;
pub mod smartshift;
pub mod state;
pub mod text;
pub mod write;
