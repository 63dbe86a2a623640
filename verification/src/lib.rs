//! Header keys in canonical spelling, and a collection of headers that
//! compares its keys by that spelling.

#![allow(unused_imports)]

pub mod ascii;
pub mod header;
pub mod normalize;
