//! Spreadsheet "A1" addresses: conversion between zero-based (row, column)
//! indices and text, cells with anchoring, and rectangular ranges.
pub mod cell;
pub mod codec;
pub mod error;
pub mod range;

pub use cell::{Cell, CellAnchorStyle};
pub use codec::{address_to_r1c1, r1c1_to_address};
pub use error::WebExcelError;
pub use range::Range;
