//! Named presets for the session: which process to watch and how hard to
//! shrink assets.

use vstd::prelude::*;
use crate::platform::{host_is_windows, spec_vrchat_target, vrchat_target_for};

verus! {

/// Defaults that a named profile gives to the session options.
#[derive(Debug, Clone, PartialEq, Eq)]
pub struct ProfileDefaults {
    pub target: Option<String>,
    pub quality_preset: String,
    pub max_texture_size: u32,
    pub live_asset_pass_seconds: u64,
}

/// The profile chosen when none is named.
pub open spec fn default_profile_name() -> Seq<char> {
    "vrchat-hq-low-end"@
}

/// The defaults of profile `name` (`None` meaning the default profile), on Windows
/// or elsewhere, as (target, quality preset, max texture size, live pass seconds).
pub open spec fn spec_profile(name: Option<Seq<char>>, windows: bool) -> (
    Option<Seq<char>>,
    Seq<char>,
    u32,
    u64,
) {
    let key = match name {
        Some(n) => n,
        None => default_profile_name(),
    };
    if key == "vrchat-hq-low-end"@ {
        (Some(spec_vrchat_target(windows)), "high-quality-low-end"@, 1024, 15)
    } else if key == "vrchat-performance"@ {
        (Some(spec_vrchat_target(windows)), "performance"@, 768, 10)
    } else {
        (None, "high-quality-low-end"@, 1024, 30)
    }
}

/// The characters of an optional name.
pub open spec fn opt_view(name: Option<&str>) -> Option<Seq<char>> {
    match name {
        Some(n) => Some(n@),
        None => None,
    }
}

impl ProfileDefaults {
    pub open spec fn spec_fields(&self) -> (Option<Seq<char>>, Seq<char>, u32, u64) {
        (self.target.deep_view(), self.quality_preset@, self.max_texture_size, self.live_asset_pass_seconds)
    }

    /// The defaults of profile `name` for a Windows host or another one.
    pub fn from_name_for(name: Option<&str>, windows: bool) -> (p: Self)
        ensures
            p.spec_fields() == spec_profile(opt_view(name), windows),
    {
        let key = match name {
            Some(n) => crate::text::to_chars(n),
            None => crate::text::to_chars("vrchat-hq-low-end"),
        };
        if crate::text::eq_str(key.as_slice(), "vrchat-hq-low-end") {
            ProfileDefaults {
                target: Some(String::from_str(vrchat_target_for(windows))),
                quality_preset: String::from_str("high-quality-low-end"),
                max_texture_size: 1024,
                live_asset_pass_seconds: 15,
            }
        } else if crate::text::eq_str(key.as_slice(), "vrchat-performance") {
            ProfileDefaults {
                target: Some(String::from_str(vrchat_target_for(windows))),
                quality_preset: String::from_str("performance"),
                max_texture_size: 768,
                live_asset_pass_seconds: 10,
            }
        } else {
            ProfileDefaults {
                target: None,
                quality_preset: String::from_str("high-quality-low-end"),
                max_texture_size: 1024,
                live_asset_pass_seconds: 30,
            }
        }
    }

    /// The defaults of profile `name` on this machine.
    pub fn from_name(name: Option<&str>) -> (p: Self)
        ensures
            p.spec_fields() == spec_profile(opt_view(name), true) || p.spec_fields()
                == spec_profile(opt_view(name), false),
    {
        let windows = host_is_windows();
        Self::from_name_for(name, windows)
    }
}

} // verus!
