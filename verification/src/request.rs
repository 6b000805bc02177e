//! The toolchain that a hook asks for.

use vstd::prelude::*;

use crate::version::VersionReq;

verus! {

/// The interpreter that a Python hook asks for.
#[derive(Debug, PartialEq, Eq)]
pub enum PythonRequest {
    /// Any interpreter.
    Any,
    /// `3`
    Major(u64),
    /// `3.10`
    MajorMinor(u64, u64),
    /// `3.10.5`
    MajorMinorPatch(u64, u64, u64),
    /// A version requirement, and the text that it was read from.
    Range(VersionReq, String),
}

/// The toolchain that a hook asks for.
#[derive(Debug, PartialEq, Eq)]
pub enum LanguageRequest {
    /// Any toolchain; with `system_only`, one that is already installed.
    Any { system_only: bool },
    /// A Python interpreter.
    Python(PythonRequest),
    /// A toolchain of another language.
    Other,
}

} // verus!
