//! Speech recognition services.
use vstd::prelude::*;

pub mod qcloud;
