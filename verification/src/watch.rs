//! Routing of files that appear in a watched cache to the pass that handles them.

use vstd::prelude::*;
use crate::path::{extension_or_empty, lower_extension};
use crate::text::{eq_str, lower};

verus! {

/// The pass that a newly written file is handed to.
#[derive(Debug, Clone, Copy, PartialEq, Eq, Structural)]
pub enum AssetRoute {
    Texture,
    Mesh,
    UnityBundle,
    Passthrough,
}

/// Image extensions that the texture pass reads.
pub open spec fn is_texture_ext(e: Seq<char>) -> bool {
    e == "png"@ || e == "jpg"@ || e == "jpeg"@ || e == "webp"@
}

/// Extensions under which Unity stores asset bundles.
pub open spec fn is_bundle_ext(e: Seq<char>) -> bool {
    e == "bundle"@ || e == "vrca"@ || e == "vrcw"@ || e == "assets"@ || e == "resource"@
}

/// The route of a file with the lowercased extension `e`.
pub open spec fn route_for_ext(e: Seq<char>) -> AssetRoute {
    if is_texture_ext(e) {
        AssetRoute::Texture
    } else if e == "obj"@ {
        AssetRoute::Mesh
    } else if is_bundle_ext(e) {
        AssetRoute::UnityBundle
    } else {
        AssetRoute::Passthrough
    }
}

pub fn texture_ext(e: &[char]) -> (b: bool)
    ensures
        b == is_texture_ext(e@),
{
    eq_str(e, "png") || eq_str(e, "jpg") || eq_str(e, "jpeg") || eq_str(e, "webp")
}

pub fn bundle_ext(e: &[char]) -> (b: bool)
    ensures
        b == is_bundle_ext(e@),
{
    eq_str(e, "bundle") || eq_str(e, "vrca") || eq_str(e, "vrcw") || eq_str(e, "assets")
        || eq_str(e, "resource")
}

/// Chooses the pass for `path` by its extension, ignoring ASCII case.
pub fn route_path(path: &str) -> (r: AssetRoute)
    ensures
        r == route_for_ext(lower(extension_or_empty(path@))),
{
    let e = lower_extension(path);
    if texture_ext(e.as_slice()) {
        AssetRoute::Texture
    } else if eq_str(e.as_slice(), "obj") {
        AssetRoute::Mesh
    } else if bundle_ext(e.as_slice()) {
        AssetRoute::UnityBundle
    } else {
        AssetRoute::Passthrough
    }
}

} // verus!
