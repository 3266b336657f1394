//! Verified core of a binding to the LVM2 application library.
//!
//! The library holds the decisions and data handling of the binding: the
//! walk over the library's intrusive circular lists, the conversion of
//! Rust strings to C strings and back, the access modes, the error values,
//! and the step functions that drive the listing of volume groups and of
//! logical volumes.  The calls into the C library itself are made by the
//! program that drives these step functions.

pub mod context;
pub mod cstring;
pub mod mapper;
pub mod vg;
pub mod lv;

pub use context::{Error, Failure, Mode};
pub use cstring::NulError;
pub use lv::{LogicalVolume, LvEvent, LvListing, LvRequest, LvStep};
pub use mapper::{Element, ListWalk};
pub use vg::{VgEvent, VgListing, VgRequest, VgStep, VolumeGroup};
