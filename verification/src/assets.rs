//! Staging of downloaded assets into the optimized output tree.

use vstd::prelude::*;
use crate::path::{extension_or_empty, file_name_or_empty, file_name_or_empty_of, join, join_chars};
use crate::text::{eq_str, from_chars, lower, to_chars};
use crate::unity_bundle::UnityBundleInfo;

verus! {

/// Places assets under one output directory.
#[derive(Debug, Clone)]
pub struct AssetStager {
    asset_output: String,
}

/// What became of one staged asset, with the path written for it.
#[derive(Debug, Clone, PartialEq, Eq)]
pub enum StagedAsset {
    Texture(String),
    Mesh(String),
    UnityBundle { inspection: UnityBundleInfo, report: String },
    Passthrough(String),
}

/// The kinds of staging that a file's extension selects.
#[derive(Debug, Clone, Copy, PartialEq, Eq, Structural)]
pub enum StageKind {
    Texture,
    Mesh,
    Passthrough,
}

/// The staging kind for a lowercased extension.
pub open spec fn stage_kind_for(e: Seq<char>) -> StageKind {
    if e == "png"@ || e == "jpg"@ || e == "jpeg"@ || e == "tga"@ || e == "dds"@ {
        StageKind::Texture
    } else if e == "fbx"@ || e == "obj"@ || e == "mesh"@ {
        StageKind::Mesh
    } else {
        StageKind::Passthrough
    }
}

impl AssetStager {
    pub closed spec fn spec_output(&self) -> Seq<char> {
        self.asset_output@
    }

    pub fn new(asset_output: String) -> (s: Self)
        ensures
            s.spec_output() == asset_output@,
    {
        Self { asset_output }
    }

    /// The directory that staged assets are written to.
    pub fn asset_output(&self) -> (p: &str)
        ensures
            p@ == self.spec_output(),
    {
        self.asset_output.as_str()
    }

    /// The path that `source` is staged to: its file name under the output directory.
    pub open spec fn spec_output_for(&self, source: Seq<char>) -> Seq<char> {
        join(self.spec_output(), file_name_or_empty(source))
    }

    /// How a file that is not a Unity bundle is staged, and where: textures and
    /// meshes by their extension (ignoring ASCII case), anything else copied.
    pub fn plan_stage(&self, source: &str) -> (r: (StageKind, String))
        ensures
            r.0 == stage_kind_for(lower(extension_or_empty(source@))),
            r.1@ == self.spec_output_for(source@),
    {
        let src = to_chars(source);
        let name = file_name_or_empty_of(src.as_slice());
        let base = to_chars(self.asset_output.as_str());
        let out = join_chars(base.as_slice(), name.as_slice());
        let e = crate::path::lower_extension(source);
        let e = e.as_slice();
        let kind = if eq_str(e, "png") || eq_str(e, "jpg") || eq_str(e, "jpeg") || eq_str(e, "tga")
            || eq_str(e, "dds") {
            StageKind::Texture
        } else if eq_str(e, "fbx") || eq_str(e, "obj") || eq_str(e, "mesh") {
            StageKind::Mesh
        } else {
            StageKind::Passthrough
        };
        (kind, from_chars(out.as_slice()))
    }
}

/// A file is staged by the extension of its path, ignoring ASCII case: `png`,
/// `jpg`, `jpeg`, `tga` and `dds` files as textures, `fbx`, `obj` and `mesh`
/// files as meshes, and every other file is copied as it is.
pub proof fn lemma_stage_kind_by_extension(source: Seq<char>)
    ensures
        (stage_kind_for(lower(extension_or_empty(source))) == StageKind::Texture) == (lower(
            extension_or_empty(source),
        ) == "png"@ || lower(extension_or_empty(source)) == "jpg"@ || lower(
            extension_or_empty(source),
        ) == "jpeg"@ || lower(extension_or_empty(source)) == "tga"@ || lower(
            extension_or_empty(source),
        ) == "dds"@),
        (stage_kind_for(lower(extension_or_empty(source))) == StageKind::Mesh) == (lower(
            extension_or_empty(source),
        ) == "fbx"@ || lower(extension_or_empty(source)) == "obj"@ || lower(
            extension_or_empty(source),
        ) == "mesh"@),
{
    reveal_strlit("png");
    reveal_strlit("jpg");
    reveal_strlit("jpeg");
    reveal_strlit("tga");
    reveal_strlit("dds");
    reveal_strlit("fbx");
    reveal_strlit("obj");
    reveal_strlit("mesh");
    let e = lower(extension_or_empty(source));
    if e == "fbx"@ || e == "obj"@ || e == "mesh"@ {
        assert(e[0] == 'f' || e[0] == 'o' || e[0] == 'm');
        assert(e != "png"@ && e != "jpg"@ && e != "jpeg"@ && e != "tga"@ && e != "dds"@) by {
            assert("png"@[0] == 'p' && "jpg"@[0] == 'j' && "jpeg"@[0] == 'j' && "tga"@[0] == 't'
                && "dds"@[0] == 'd');
        }
    }
}

} // verus!
