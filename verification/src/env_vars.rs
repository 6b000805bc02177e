//! Names of environment variables.

use vstd::prelude::*;

verus! {

pub const PYTHONHOME: &'static str = "PYTHONHOME";

pub const PATH: &'static str = "PATH";

pub const UV_ASTRAL_MIRROR_URL: &'static str = "UV_ASTRAL_MIRROR_URL";

pub const UV_CACHE_DIR: &'static str = "UV_CACHE_DIR";

pub const UV_MANAGED_PYTHON: &'static str = "UV_MANAGED_PYTHON";

pub const UV_NO_MANAGED_PYTHON: &'static str = "UV_NO_MANAGED_PYTHON";

pub const UV_PYTHON: &'static str = "UV_PYTHON";

pub const UV_PYTHON_INSTALL_DIR: &'static str = "UV_PYTHON_INSTALL_DIR";

pub const UV_SYSTEM_PYTHON: &'static str = "UV_SYSTEM_PYTHON";

pub const VIRTUAL_ENV: &'static str = "VIRTUAL_ENV";

} // verus!
