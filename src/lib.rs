use vstd::prelude::*;

pub mod animation;
pub mod builder;
pub mod bytes;
pub mod canvas;
pub mod crypto;
pub mod ctx;
pub mod error;
pub mod file;
pub mod keys;
pub mod l0;
pub mod l1;
pub mod l1_read;
pub mod text;
pub mod tree;
pub mod ty;
pub mod util;
pub mod val;
pub mod value_tree;
pub mod version;

use crate::version::{WzRegion, WzVersion};

pub use crate::file::WzReader;

verus! {

/// The region and version that an archive is opened with.
#[derive(Debug, Clone, Copy, PartialEq, Eq, Structural)]
pub struct WzConfig {
    pub region: WzRegion,
    pub version: WzVersion,
}

impl WzConfig {
    pub fn new(region: WzRegion, version: u16) -> (r: WzConfig)
        ensures
            r.region == region,
            r.version.0 == version,
    {
        WzConfig { region, version: WzVersion(version) }
    }

    pub fn gms(version: u16) -> (r: WzConfig)
        ensures
            r.region == WzRegion::GMS,
            r.version.0 == version,
    {
        WzConfig { region: WzRegion::GMS, version: WzVersion(version) }
    }
}

/// The global region at version 95.
pub fn gms95() -> (r: WzConfig)
    ensures
        r.region == WzRegion::GMS,
        r.version.0 == 95,
{
    WzConfig::gms(95)
}

} // verus!
