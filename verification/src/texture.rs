//! Texture budgets: how large each texture may stay, chosen by quality preset
//! and by what the texture's file name says it is.

use vstd::prelude::*;
use crate::path::{extension_or_empty, file_name_or_empty, lower_extension, lower_file_name};
use crate::text::{contains, contains_str, eq_str, lower, to_chars};
use crate::refresh::{asset_action, spec_asset_action, AssetAction};
use crate::watch::{is_texture_ext, texture_ext};

verus! {

/// Whether some needle occurs in `name`.
pub open spec fn contains_any_of(name: Seq<char>, needles: Seq<&str>) -> bool {
    exists|i: int| 0 <= i < needles.len() && contains(name, (#[trigger] needles[i])@)
}

/// Whether any of `needles` occurs in `name`.
pub fn contains_any(name: &str, needles: &[&str]) -> (b: bool)
    ensures
        b == contains_any_of(name@, needles@),
{
    let n = to_chars(name);
    let k = needles.len();
    for i in 0..k
        invariant
            k == needles@.len(),
            n@ == name@,
            forall|j: int| 0 <= j < i ==> !contains(name@, (#[trigger] needles@[j])@),
    {
        if contains_str(n.as_slice(), needles[i]) {
            return true;
        }
    }
    false
}

/// Names of textures that carry visible detail: faces, skin, hair, base colour.
pub open spec fn detail_words() -> Seq<&'static str> {
    seq!["face", "head", "eye", "skin", "body", "hair", "cloth", "albedo", "diffuse", "basecolor"]
}

/// Names of normal maps.
pub open spec fn normal_words() -> Seq<&'static str> {
    seq!["normal", "_nrm", "bump"]
}

/// Names of mask-like maps: roughness, metalness, occlusion, packed channels.
pub open spec fn mask_words() -> Seq<&'static str> {
    seq!["mask", "rough", "roughness", "metal", "metallic", "ao", "occlusion", "packed"]
}

/// Names of interface textures.
pub open spec fn ui_words() -> Seq<&'static str> {
    seq!["ui", "icon", "font"]
}

/// The preset factor in quarters: `performance` ½, `balanced` ¾, `ultra-safe` 1½,
/// any other preset 1.
pub open spec fn preset_quarters(preset: Seq<char>) -> nat {
    if preset == "performance"@ {
        2
    } else if preset == "balanced"@ {
        3
    } else if preset == "high-quality-low-end"@ {
        4
    } else if preset == "ultra-safe"@ {
        6
    } else {
        4
    }
}

/// The class factor in quarters for a lowercased file name: detail and normal
/// maps 1¼, mask-like maps ½, others 1.
pub open spec fn class_quarters(name: Seq<char>) -> nat {
    if contains_any_of(name, detail_words()) {
        5
    } else if contains_any_of(name, normal_words()) {
        5
    } else if contains_any_of(name, mask_words()) {
        2
    } else if contains_any_of(name, ui_words()) {
        4
    } else {
        4
    }
}

/// The largest side a texture may keep: `base` times both factors, rounded to
/// the nearest integer (halves up), capped at `u32::MAX` and raised to 256.
/// The product is formed exactly.
pub open spec fn spec_max_size(path: Seq<char>, base: u32, preset: Seq<char>) -> u32 {
    let name = lower(file_name_or_empty(path));
    let scaled = (base as nat * preset_quarters(preset) * class_quarters(name) + 8) / 16;
    let capped = if scaled > u32::MAX {
        u32::MAX as nat
    } else {
        scaled
    };
    if capped < 256 {
        256
    } else {
        capped as u32
    }
}

fn preset_factor(preset: &str) -> (q: u64)
    ensures
        q == preset_quarters(preset@),
{
    let p = to_chars(preset);
    if eq_str(p.as_slice(), "performance") {
        2
    } else if eq_str(p.as_slice(), "balanced") {
        3
    } else if eq_str(p.as_slice(), "high-quality-low-end") {
        4
    } else if eq_str(p.as_slice(), "ultra-safe") {
        6
    } else {
        4
    }
}

fn class_factor(name: &str) -> (q: u64)
    ensures
        q == class_quarters(name@),
{
    let detail = ["face", "head", "eye", "skin", "body", "hair", "cloth", "albedo", "diffuse", "basecolor"];
    let normal = ["normal", "_nrm", "bump"];
    let mask = ["mask", "rough", "roughness", "metal", "metallic", "ao", "occlusion", "packed"];
    let ui = ["ui", "icon", "font"];
    assert(detail@ =~= detail_words());
    assert(normal@ =~= normal_words());
    assert(mask@ =~= mask_words());
    assert(ui@ =~= ui_words());
    if contains_any(name, &detail) {
        5
    } else if contains_any(name, &normal) {
        5
    } else if contains_any(name, &mask) {
        2
    } else if contains_any(name, &ui) {
        4
    } else {
        4
    }
}

/// The largest side allowed for the texture at `path` with budget `base` under `preset`.
pub fn max_size_for_texture(path: &str, base: u32, preset: &str) -> (m: u32)
    ensures
        m == spec_max_size(path@, base, preset@),
        m >= 256,
{
    let name_chars = lower_file_name(path);
    let name = crate::text::from_chars(name_chars.as_slice());
    let pq = preset_factor(preset);
    let cq = class_factor(name.as_str());
    assert(base as nat * pq * cq <= 0xffff_ffff * 6 * 5) by (nonlinear_arith)
        requires
            pq <= 6,
            cq <= 5,
            base <= 0xffff_ffff,
    ;
    let scaled = (base as u64 * pq * cq + 8) / 16;
    let capped = if scaled > u32::MAX as u64 {
        u32::MAX
    } else {
        scaled as u32
    };
    if capped < 256 {
        256
    } else {
        capped
    }
}


/// Declares `image::DynamicImage`, a decoded image held opaquely.
#[verifier::external_type_specification]
#[verifier::external_body]
pub struct ExDynamicImage(image::DynamicImage);

/// The width and height, in pixels, that `GenericImageView::dimensions` reports
/// for a decoded image.
pub uninterp spec fn spec_image_dims(img: image::DynamicImage) -> (u32, u32);

/// Wraps `GenericImageView::dimensions` for `image::DynamicImage`: the width and
/// height of the image's pixel buffer, which depend on the image alone.
#[verifier::external_body]
fn image_dimensions(img: &image::DynamicImage) -> (wh: (u32, u32))
    ensures
        wh == spec_image_dims(*img),
{
    image::GenericImageView::dimensions(img)
}

/// Declares `image::ImageError`, why an image could not be decoded.
#[verifier::external_type_specification]
#[verifier::external_body]
pub struct ExImageError(image::ImageError);

/// The width and height of the image that `image::load_from_memory` decodes
/// from `bytes`, or none where it cannot decode them.
pub uninterp spec fn spec_decoded_dims(bytes: Seq<u8>) -> Option<(u32, u32)>;

/// Wraps `image::load_from_memory`: decodes `bytes` as an image whose format is
/// guessed from its first bytes. It succeeds exactly when the bytes decode, and
/// the image it gives has the decoded width and height.
#[verifier::external_body]
fn decode_image(bytes: &[u8]) -> (r: Result<image::DynamicImage, image::ImageError>)
    ensures
        r is Ok <==> spec_decoded_dims(bytes@) is Some,
        r matches Ok(img) ==> spec_decoded_dims(bytes@) == Some(spec_image_dims(img)),
{
    image::load_from_memory(bytes)
}

/// Where texture optimization reads and writes, and how hard it shrinks.
#[derive(Debug, Clone)]
pub struct TexturePolicy {
    pub cache_dir: Option<String>,
    pub output_dir: Option<String>,
    pub max_texture_size: u32,
    pub quality_preset: String,
    pub dry_run: bool,
    pub verbose: bool,
}

/// Counts of one texture pass.
#[derive(Debug, Clone, PartialEq, Eq)]
pub struct TextureReport {
    pub scanned: usize,
    pub optimized: usize,
    pub copied: usize,
    pub skipped: usize,
}

impl Default for TextureReport {
    fn default() -> (r: Self)
        ensures
            r.scanned == 0 && r.optimized == 0 && r.copied == 0 && r.skipped == 0,
    {
        TextureReport { scanned: 0, optimized: 0, copied: 0, skipped: 0 }
    }
}

impl TextureReport {
    /// Counts a file met by the walk; one that is not a texture is skipped.
    pub fn record_scanned(&mut self, is_texture: bool)
        requires
            old(self).scanned < usize::MAX,
            !is_texture ==> old(self).skipped < usize::MAX,
        ensures
            final(self).scanned == old(self).scanned + 1,
            final(self).skipped == old(self).skipped + (if is_texture {
                0int
            } else {
                1int
            }),
            final(self).optimized == old(self).optimized,
            final(self).copied == old(self).copied,
    {
        self.scanned = self.scanned + 1;
        if !is_texture {
            self.skipped = self.skipped + 1;
        }
    }

    /// Counts the outcome of one texture: rewritten (`Some(true)`), copied or left
    /// as it was (`Some(false)`), or failed (`None`).
    pub fn record_outcome(&mut self, outcome: Option<bool>)
        requires
            outcome == Some(true) ==> old(self).optimized < usize::MAX,
            outcome == Some(false) ==> old(self).copied < usize::MAX,
            outcome is None ==> old(self).skipped < usize::MAX,
        ensures
            final(self).scanned == old(self).scanned,
            final(self).optimized == old(self).optimized + (if outcome == Some(true) {
                1int
            } else {
                0int
            }),
            final(self).copied == old(self).copied + (if outcome == Some(false) {
                1int
            } else {
                0int
            }),
            final(self).skipped == old(self).skipped + (if outcome is None {
                1int
            } else {
                0int
            }),
    {
        match outcome {
            Some(true) => self.optimized = self.optimized + 1,
            Some(false) => self.copied = self.copied + 1,
            None => self.skipped = self.skipped + 1,
        }
    }

    /// Adds the outcomes counted by one worker.
    pub fn absorb(&mut self, other: &TextureReport)
        requires
            old(self).optimized + other.optimized <= usize::MAX,
            old(self).copied + other.copied <= usize::MAX,
            old(self).skipped + other.skipped <= usize::MAX,
        ensures
            final(self).scanned == old(self).scanned,
            final(self).optimized == old(self).optimized + other.optimized,
            final(self).copied == old(self).copied + other.copied,
            final(self).skipped == old(self).skipped + other.skipped,
    {
        self.optimized = self.optimized + other.optimized;
        self.copied = self.copied + other.copied;
        self.skipped = self.skipped + other.skipped;
    }
}

/// The decision for one decoded texture.
#[derive(Debug, Clone, Copy, PartialEq, Eq)]
pub struct TexturePlan {
    pub width: u32,
    pub height: u32,
    pub max_size: u32,
    pub needs_resize: bool,
}

/// Shrinks the textures of a cache to their budgets.
#[derive(Debug, Clone)]
pub struct TextureReducer {
    policy: TexturePolicy,
}

/// The decision for a `width` by `height` texture whose budget is `max_size`:
/// it is resized exactly when its longer side exceeds the budget.
pub open spec fn spec_plan(width: u32, height: u32, max_size: u32) -> TexturePlan {
    TexturePlan {
        width,
        height,
        max_size,
        needs_resize: (if width >= height {
            width
        } else {
            height
        }) > max_size,
    }
}

impl TextureReducer {
    pub fn new(policy: TexturePolicy) -> (r: Self)
        ensures
            r.spec_policy() == policy,
    {
        Self { policy }
    }

    pub closed spec fn spec_policy(&self) -> TexturePolicy {
        self.policy
    }

    /// Where optimized copies are written when a cache directory is given: the
    /// output directory, or else the cache directory with the extension
    /// `game-op-optimized`.
    pub fn output_root(&self) -> (r: Option<String>)
        ensures
            match self.spec_policy().cache_dir {
                None => r is None,
                Some(c) => r matches Some(o) && o@ == match self.spec_policy().output_dir {
                    Some(d) => d@,
                    None => crate::path::with_extension(c@, "game-op-optimized"@),
                },
            },
    {
        match &self.policy.cache_dir {
            None => None,
            Some(c) => match &self.policy.output_dir {
                Some(d) => Some(d.clone()),
                None => Some(crate::path::with_extension_of(c.as_str(), "game-op-optimized")),
            },
        }
    }

    /// The policy this reducer applies.
    pub fn policy(&self) -> (p: &TexturePolicy)
        ensures
            *p == self.spec_policy(),
    {
        &self.policy
    }

    /// Whether a cache directory was given, so that there is anything to do.
    pub fn has_cache_dir(&self) -> (b: bool)
        ensures
            b == self.spec_policy().cache_dir is Some,
    {
        self.policy.cache_dir.is_some()
    }

    /// The decision for the texture at `input` of `width` by `height`.
    pub fn plan(&self, input: &str, width: u32, height: u32) -> (p: TexturePlan)
        ensures
            p == spec_plan(
                width,
                height,
                spec_max_size(
                    input@,
                    self.spec_policy().max_texture_size,
                    self.spec_policy().quality_preset@,
                ),
            ),
    {
        let max_size = max_size_for_texture(
            input,
            self.policy.max_texture_size,
            self.policy.quality_preset.as_str(),
        );
        let largest = if width >= height {
            width
        } else {
            height
        };
        TexturePlan { width, height, max_size, needs_resize: largest > max_size }
    }

    /// The decision for the decoded texture `img` read from `input`.
    pub fn plan_image(&self, input: &str, img: &image::DynamicImage) -> (p: TexturePlan)
        ensures
            (p.width, p.height) == spec_image_dims(*img),
            p == spec_plan(
                p.width,
                p.height,
                spec_max_size(
                    input@,
                    self.spec_policy().max_texture_size,
                    self.spec_policy().quality_preset@,
                ),
            ),
    {
        let (width, height) = image_dimensions(img);
        self.plan(input, width, height)
    }
}

impl TextureReducer {
    /// Decodes the texture read from `input`, whose contents are `bytes`, and
    /// decides on it: the image and the plan for its decoded size, or the
    /// decoder's error where the bytes are no image it can decode.
    pub fn plan_texture(&self, input: &str, bytes: &[u8]) -> (r: Result<
        (image::DynamicImage, TexturePlan),
        image::ImageError,
    >)
        ensures
            r is Ok <==> spec_decoded_dims(bytes@) is Some,
            r matches Ok((img, p)) ==> {
                &&& spec_decoded_dims(bytes@) == Some((p.width, p.height))
                &&& spec_image_dims(img) == (p.width, p.height)
                &&& p == spec_plan(
                    p.width,
                    p.height,
                    spec_max_size(
                        input@,
                        self.spec_policy().max_texture_size,
                        self.spec_policy().quality_preset@,
                    ),
                )
            },
    {
        match decode_image(bytes) {
            Ok(img) => {
                let p = self.plan_image(input, &img);
                Ok((img, p))
            },
            Err(e) => Err(e),
        }
    }

    /// What to write for a texture planned as `plan`, whose output is the
    /// texture itself when `same_path`: a report in a dry run, a resized copy
    /// where the texture is over budget, else a plain copy.
    pub fn texture_action(&self, plan: &TexturePlan, same_path: bool) -> (a: AssetAction)
        ensures
            a == spec_asset_action(self.spec_policy().dry_run, plan.needs_resize, same_path),
    {
        asset_action(self.policy.dry_run, plan.needs_resize, same_path)
    }
}

/// Magic numbers of PNG, JPEG and WebP files.
pub open spec fn has_image_magic(head: Seq<u8>) -> bool {
    head.len() >= 12 && ((head[0] == 0x89 && head[1] == 0x50 && head[2] == 0x4e && head[3]
        == 0x47) || (head[0] == 0xff && head[1] == 0xd8 && head[2] == 0xff) || (head[0] == 0x52
        && head[1] == 0x49 && head[2] == 0x46 && head[3] == 0x46 && head[8] == 0x57 && head[9]
        == 0x45 && head[10] == 0x42 && head[11] == 0x50))
}

/// Whether the file at `path`, whose first bytes are `head` (twelve of them when
/// the file is that long), is a texture: by its image extension, ignoring ASCII
/// case, or else by the PNG, JPEG or WebP magic in its first twelve bytes.
pub open spec fn spec_is_texture_file(path: Seq<char>, head: Seq<u8>) -> bool {
    is_texture_ext(lower(extension_or_empty(path))) || has_image_magic(head)
}

pub fn is_texture_file(path: &str, head: &[u8]) -> (b: bool)
    ensures
        b == spec_is_texture_file(path@, head@),
{
    let e = lower_extension(path);
    if texture_ext(e.as_slice()) {
        return true;
    }
    if head.len() < 12 {
        return false;
    }
    (head[0] == 0x89 && head[1] == 0x50 && head[2] == 0x4e && head[3] == 0x47) || (head[0] == 0xff
        && head[1] == 0xd8 && head[2] == 0xff) || (head[0] == 0x52 && head[1] == 0x49 && head[2]
        == 0x46 && head[3] == 0x46 && head[8] == 0x57 && head[9] == 0x45 && head[10] == 0x42
        && head[11] == 0x50)
}


/// Whether a lowercased texture name falls in no class.
pub open spec fn is_plain_name(name: Seq<char>) -> bool {
    !contains_any_of(name, detail_words()) && !contains_any_of(name, normal_words())
        && !contains_any_of(name, mask_words())
}

/// Whether a lowercased texture name is a mask-like map and nothing more detailed.
pub open spec fn is_mask_name(name: Seq<char>) -> bool {
    !contains_any_of(name, detail_words()) && !contains_any_of(name, normal_words())
        && contains_any_of(name, mask_words())
}

/// Whether a lowercased texture name is a detail or normal map.
pub open spec fn is_detail_name(name: Seq<char>) -> bool {
    contains_any_of(name, detail_words()) || contains_any_of(name, normal_words())
}

proof fn lemma_budget_monotone(base: u32, pq: nat, c1: nat, c2: nat)
    requires
        c1 <= c2,
    ensures
        (base as nat * pq * c1 + 8) / 16 <= (base as nat * pq * c2 + 8) / 16,
{
    assert(base as nat * pq * c1 <= base as nat * pq * c2) by (nonlinear_arith)
        requires
            c1 <= c2,
    ;
    vstd::arithmetic::div_mod::lemma_div_is_ordered(
        (base as nat * pq * c1 + 8) as int,
        (base as nat * pq * c2 + 8) as int,
        16int,
    );
}

/// Class-aware budgets: with the same base budget and preset, a mask-like map
/// never gets more room than an unclassified texture, and an unclassified texture
/// never more than a detail or normal map.
pub proof fn lemma_class_budget_order(
    base: u32,
    preset: Seq<char>,
    mask: Seq<char>,
    plain: Seq<char>,
    detail: Seq<char>,
)
    requires
        is_mask_name(lower(file_name_or_empty(mask))),
        is_plain_name(lower(file_name_or_empty(plain))),
        is_detail_name(lower(file_name_or_empty(detail))),
    ensures
        spec_max_size(mask, base, preset) <= spec_max_size(plain, base, preset),
        spec_max_size(plain, base, preset) <= spec_max_size(detail, base, preset),
{
    let pq = preset_quarters(preset);
    assert(class_quarters(lower(file_name_or_empty(mask))) == 2);
    assert(class_quarters(lower(file_name_or_empty(plain))) == 4);
    assert(class_quarters(lower(file_name_or_empty(detail))) == 5);
    lemma_budget_monotone(base, pq, 2, 4);
    lemma_budget_monotone(base, pq, 4, 5);
}

/// Whether a lowercased file name marks a detail texture: face, head, eye,
/// skin, body, hair, cloth, albedo, diffuse or base colour.
pub open spec fn names_detail(n: Seq<char>) -> bool {
    contains(n, "face"@) || contains(n, "head"@) || contains(n, "eye"@) || contains(n, "skin"@)
        || contains(n, "body"@) || contains(n, "hair"@) || contains(n, "cloth"@) || contains(
        n,
        "albedo"@,
    ) || contains(n, "diffuse"@) || contains(n, "basecolor"@)
}

/// Whether a lowercased file name marks a normal map.
pub open spec fn names_normal(n: Seq<char>) -> bool {
    contains(n, "normal"@) || contains(n, "_nrm"@) || contains(n, "bump"@)
}

/// Whether a lowercased file name marks a mask-like map.
pub open spec fn names_mask(n: Seq<char>) -> bool {
    contains(n, "mask"@) || contains(n, "rough"@) || contains(n, "roughness"@) || contains(
        n,
        "metal"@,
    ) || contains(n, "metallic"@) || contains(n, "ao"@) || contains(n, "occlusion"@) || contains(
        n,
        "packed"@,
    )
}

/// The class of a texture is read from its lowercased file name, in this order:
/// a detail word gives 5/4 of the budget, else a normal-map word 5/4, else a
/// mask word 1/2; every other texture keeps the budget (4/4).
pub proof fn lemma_texture_class_table(n: Seq<char>)
    ensures
        names_detail(n) ==> class_quarters(n) == 5,
        !names_detail(n) && names_normal(n) ==> class_quarters(n) == 5,
        !names_detail(n) && !names_normal(n) && names_mask(n) ==> class_quarters(n) == 2,
        !names_detail(n) && !names_normal(n) && !names_mask(n) ==> class_quarters(n) == 4,
{
    let d = detail_words();
    let nw = normal_words();
    let m = mask_words();
    assert(d[0]@ == "face"@ && d[1]@ == "head"@ && d[2]@ == "eye"@ && d[3]@ == "skin"@ && d[4]@
        == "body"@ && d[5]@ == "hair"@ && d[6]@ == "cloth"@ && d[7]@ == "albedo"@ && d[8]@
        == "diffuse"@ && d[9]@ == "basecolor"@ && d.len() == 10);
    assert(nw[0]@ == "normal"@ && nw[1]@ == "_nrm"@ && nw[2]@ == "bump"@ && nw.len() == 3);
    assert(m[0]@ == "mask"@ && m[1]@ == "rough"@ && m[2]@ == "roughness"@ && m[3]@ == "metal"@
        && m[4]@ == "metallic"@ && m[5]@ == "ao"@ && m[6]@ == "occlusion"@ && m[7]@ == "packed"@
        && m.len() == 8);
    if names_detail(n) {
        assert(contains_any_of(n, d)) by {
            if contains(n, "face"@) { assert(contains(n, d[0]@)); }
            else if contains(n, "head"@) { assert(contains(n, d[1]@)); }
            else if contains(n, "eye"@) { assert(contains(n, d[2]@)); }
            else if contains(n, "skin"@) { assert(contains(n, d[3]@)); }
            else if contains(n, "body"@) { assert(contains(n, d[4]@)); }
            else if contains(n, "hair"@) { assert(contains(n, d[5]@)); }
            else if contains(n, "cloth"@) { assert(contains(n, d[6]@)); }
            else if contains(n, "albedo"@) { assert(contains(n, d[7]@)); }
            else if contains(n, "diffuse"@) { assert(contains(n, d[8]@)); }
            else { assert(contains(n, d[9]@)); }
        }
    } else {
        assert(!contains_any_of(n, d)) by {
            assert forall|i: int| 0 <= i < d.len() implies !contains(n, (#[trigger] d[i])@) by {
                assert(i == 0 || i == 1 || i == 2 || i == 3 || i == 4 || i == 5 || i == 6 || i == 7
                    || i == 8 || i == 9);
            }
        }
        if names_normal(n) {
            assert(contains_any_of(n, nw)) by {
                if contains(n, "normal"@) { assert(contains(n, nw[0]@)); }
                else if contains(n, "_nrm"@) { assert(contains(n, nw[1]@)); }
                else { assert(contains(n, nw[2]@)); }
            }
        } else {
            assert(!contains_any_of(n, nw)) by {
                assert forall|i: int| 0 <= i < nw.len() implies !contains(n, (#[trigger] nw[i])@) by {
                    assert(i == 0 || i == 1 || i == 2);
                }
            }
            if names_mask(n) {
                assert(contains_any_of(n, m)) by {
                    if contains(n, "mask"@) { assert(contains(n, m[0]@)); }
                    else if contains(n, "rough"@) { assert(contains(n, m[1]@)); }
                    else if contains(n, "roughness"@) { assert(contains(n, m[2]@)); }
                    else if contains(n, "metal"@) { assert(contains(n, m[3]@)); }
                    else if contains(n, "metallic"@) { assert(contains(n, m[4]@)); }
                    else if contains(n, "ao"@) { assert(contains(n, m[5]@)); }
                    else if contains(n, "occlusion"@) { assert(contains(n, m[6]@)); }
                    else { assert(contains(n, m[7]@)); }
                }
            } else {
                assert(!contains_any_of(n, m)) by {
                    assert forall|i: int| 0 <= i < m.len() implies !contains(n, (#[trigger] m[i])@) by {
                        assert(i == 0 || i == 1 || i == 2 || i == 3 || i == 4 || i == 5 || i == 6
                            || i == 7);
                    }
                }
            }
        }
    }
}

/// Under the `high-quality-low-end` preset a detail texture keeps 5/4 of the
/// base budget, rounded half up, capped at `u32::MAX` and never below 256: a
/// `basecolor` map with a base of 1024 may keep 1280 pixels.
pub proof fn lemma_detail_budget(path: Seq<char>, base: u32)
    requires
        names_detail(lower(file_name_or_empty(path))),
    ensures
        spec_max_size(path, base, "high-quality-low-end"@) == if (5 * base as nat + 2) / 4 > u32::MAX {
            u32::MAX
        } else if (5 * base as nat + 2) / 4 < 256 {
            256
        } else {
            ((5 * base as nat + 2) / 4) as u32
        },
{
    lemma_texture_class_table(lower(file_name_or_empty(path)));
    reveal_strlit("high-quality-low-end");
    reveal_strlit("performance");
    reveal_strlit("balanced");
    assert("high-quality-low-end"@.len() != "performance"@.len());
    assert("high-quality-low-end"@.len() != "balanced"@.len());
    assert(preset_quarters("high-quality-low-end"@) == 4);
    assert(base as nat * 4 * 5 + 8 == 4 * (5 * base as nat + 2)) by (nonlinear_arith);
    assert((base as nat * 4 * 5 + 8) / 16 == (5 * base as nat + 2) / 4) by (nonlinear_arith)
        requires
            base as nat * 4 * 5 + 8 == 4 * (5 * base as nat + 2),
    ;
}

/// The budget, capped at `u32::MAX` and raised to 256.
pub open spec fn clamped_budget(v: nat) -> u32 {
    if v > u32::MAX {
        u32::MAX
    } else if v < 256 {
        256
    } else {
        v as u32
    }
}

/// The presets scale a texture of no class: `performance` to half the base
/// budget, `balanced` to three quarters, `ultra-safe` to one and a half, and
/// `high-quality-low-end` or any other preset keep it (halves rounded up).
pub proof fn lemma_preset_budgets(path: Seq<char>, base: u32, preset: Seq<char>)
    requires
        !names_detail(lower(file_name_or_empty(path))),
        !names_normal(lower(file_name_or_empty(path))),
        !names_mask(lower(file_name_or_empty(path))),
    ensures
        preset == "performance"@ ==> spec_max_size(path, base, preset) == clamped_budget(
            (base as nat + 1) / 2,
        ),
        preset == "balanced"@ ==> spec_max_size(path, base, preset) == clamped_budget(
            (3 * base as nat + 2) / 4,
        ),
        preset == "ultra-safe"@ ==> spec_max_size(path, base, preset) == clamped_budget(
            (3 * base as nat + 1) / 2,
        ),
        preset != "performance"@ && preset != "balanced"@ && preset != "ultra-safe"@ ==> spec_max_size(
            path,
            base,
            preset,
        ) == clamped_budget(base as nat),
{
    lemma_texture_class_table(lower(file_name_or_empty(path)));
    reveal_strlit("performance");
    reveal_strlit("balanced");
    reveal_strlit("high-quality-low-end");
    reveal_strlit("ultra-safe");
    assert("performance"@.len() == 11 && "balanced"@.len() == 8 && "high-quality-low-end"@.len()
        == 20 && "ultra-safe"@.len() == 10);
    let b = base as nat;
    assert((b * 2 * 4 + 8) / 16 == (b + 1) / 2) by (nonlinear_arith);
    assert((b * 3 * 4 + 8) / 16 == (3 * b + 2) / 4) by (nonlinear_arith);
    assert((b * 6 * 4 + 8) / 16 == (3 * b + 1) / 2) by (nonlinear_arith);
    assert((b * 4 * 4 + 8) / 16 == b) by (nonlinear_arith);
}

} // verus!
