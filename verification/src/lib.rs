//! A sparse, typed columnar vector container: indexed scalar values (integer,
//! fixed-point decimal, or double) stored in fixed-size regions with presence
//! bitmaps, under a fixed-layout metadata header.

pub mod bitmap;
pub mod codec;
pub mod region;
pub mod vector;
