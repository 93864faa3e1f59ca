//! Plain data carried across the outward interface: folder scans, EXIF
//! metadata, and GPU adapter descriptions.

use vstd::prelude::*;

verus! {

/// One scanned asset: its registry id and where it lives on disk.
pub struct AssetSummary {
    pub id: String,
    pub file_name: String,
    pub extension: String,
    pub path: String,
}

/// A scanned folder: its id, its path, and its assets in display order.
pub struct FolderIndex {
    pub id: String,
    pub path: String,
    pub assets: Vec<AssetSummary>,
}

/// The EXIF fields surfaced to the caller; absent tags stay `None`.
pub struct Metadata {
    pub camera: Option<String>,
    pub lens: Option<String>,
    pub iso: Option<String>,
    pub shutter: Option<String>,
    pub aperture: Option<String>,
    pub focal: Option<String>,
    pub date: Option<String>,
}

impl Default for Metadata {
    /// Metadata with every field absent.
    fn default() -> (r: Self)
        ensures
            r.camera is None,
            r.lens is None,
            r.iso is None,
            r.shutter is None,
            r.aperture is None,
            r.focal is None,
            r.date is None,
    {
        Metadata {
            camera: None,
            lens: None,
            iso: None,
            shutter: None,
            aperture: None,
            focal: None,
            date: None,
        }
    }
}

/// A detected GPU adapter, for diagnostics only.
pub struct GpuAdapter {
    pub name: String,
    pub backend: String,
    pub device_type: String,
}

} // verus!
