use vstd::prelude::*;

use crate::entity::GachaRecordItem;

verus! {

/// The interchange version written on export.
pub const UIGF_VERSION: &'static str = "v4.1";

/// Export metadata of the multi-account interchange format.
#[derive(Debug)]
pub struct UigfInfo {
    pub export_time: String,
    pub export_timestamp: u64,
    pub export_app: String,
    pub export_app_version: String,
    /// Format version, written `v{major}.{minor}`.
    pub version: String,
}

/// One account's block in the multi-account interchange format.
#[derive(Debug)]
pub struct UigfGameData {
    pub uid: String,
    pub timezone: i8,
    pub lang: String,
    pub list: Vec<GachaRecordItem>,
}

/// The multi-account interchange document.
#[derive(Debug)]
pub struct Uigf {
    pub info: UigfInfo,
    pub hkrpg: Vec<UigfGameData>,
}

/// Header of the single-account interchange format.
#[derive(Debug)]
pub struct SrgfInfo {
    pub uid: String,
    pub lang: String,
    pub region_time_zone: i8,
    pub export_timestamp: u64,
    pub export_app: String,
    pub export_app_version: String,
    pub srgf_version: String,
}

/// The single-account interchange document.
#[derive(Debug)]
pub struct Srgf {
    pub info: SrgfInfo,
    pub list: Vec<GachaRecordItem>,
}

} // verus!
