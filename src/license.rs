//! Headers built from license texts.

pub mod spdx;
