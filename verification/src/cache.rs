//! Where the game keeps its download cache, and the names used when the cache
//! is redirected to optimized copies.

use vstd::prelude::*;
use crate::platform::Platform;
use crate::text::{extend_chars, from_chars, to_chars};

verus! {

/// The cache folder below a Windows user profile.
pub open spec fn windows_cache_suffix() -> Seq<char> {
    "\\AppData\\LocalLow\\VRChat\\VRChat\\Cache-WindowsPlayer"@
}

/// The cache folders of the Proton prefix below a Unix home directory.
pub open spec fn proton_cache_suffixes() -> Seq<Seq<char>> {
    seq![
        "/.steam/steam/steamapps/compatdata/438100/pfx/drive_c/users/steamuser/AppData/LocalLow/VRChat/VRChat/Cache-WindowsPlayer"@,
        "/.local/share/Steam/steamapps/compatdata/438100/pfx/drive_c/users/steamuser/AppData/LocalLow/VRChat/VRChat/Cache-WindowsPlayer"@,
        "/.var/app/com.valvesoftware.Steam/.local/share/Steam/steamapps/compatdata/438100/pfx/drive_c/users/steamuser/AppData/LocalLow/VRChat/VRChat/Cache-WindowsPlayer"@,
    ]
}

/// The cache folder on a Steam Deck memory card.
pub open spec fn sd_card_cache() -> Seq<char> {
    "/run/media/mmcblk0p1/steamapps/compatdata/438100/pfx/drive_c/users/steamuser/AppData/LocalLow/VRChat/VRChat/Cache-WindowsPlayer"@
}

/// The places to look for the cache, in order, given the user's profile or home
/// directory.
pub open spec fn spec_cache_candidates(platform: Platform, home: Seq<char>) -> Seq<Seq<char>> {
    if platform == Platform::Windows {
        seq![home + windows_cache_suffix()]
    } else {
        seq![
            home + proton_cache_suffixes()[0],
            home + proton_cache_suffixes()[1],
            home + proton_cache_suffixes()[2],
            sd_card_cache(),
        ]
    }
}

fn concat(a: &str, b: &str) -> (s: String)
    ensures
        s@ == a@ + b@,
{
    let mut c = to_chars(a);
    let d = to_chars(b);
    extend_chars(&mut c, d.as_slice());
    from_chars(c.as_slice())
}

/// The places to look for the game's cache on `platform`.
pub fn cache_candidates(platform: Platform, home: &str) -> (v: Vec<String>)
    ensures
        v@.map_values(|s: String| s@) == spec_cache_candidates(platform, home@),
{
    let mut v: Vec<String> = Vec::new();
    if platform == Platform::Windows {
        v.push(concat(home, "\\AppData\\LocalLow\\VRChat\\VRChat\\Cache-WindowsPlayer"));
    } else {
        v.push(
            concat(
                home,
                "/.steam/steam/steamapps/compatdata/438100/pfx/drive_c/users/steamuser/AppData/LocalLow/VRChat/VRChat/Cache-WindowsPlayer",
            ),
        );
        v.push(
            concat(
                home,
                "/.local/share/Steam/steamapps/compatdata/438100/pfx/drive_c/users/steamuser/AppData/LocalLow/VRChat/VRChat/Cache-WindowsPlayer",
            ),
        );
        v.push(
            concat(
                home,
                "/.var/app/com.valvesoftware.Steam/.local/share/Steam/steamapps/compatdata/438100/pfx/drive_c/users/steamuser/AppData/LocalLow/VRChat/VRChat/Cache-WindowsPlayer",
            ),
        );
        v.push(
            String::from_str(
                "/run/media/mmcblk0p1/steamapps/compatdata/438100/pfx/drive_c/users/steamuser/AppData/LocalLow/VRChat/VRChat/Cache-WindowsPlayer",
            ),
        );
    }
    assert(v@.map_values(|s: String| s@) =~= spec_cache_candidates(platform, home@));
    v
}

/// The name under which the untouched cache is kept while redirected: the cache
/// path followed by `.game-op-original`.
pub fn backup_path(cache: &str) -> (s: String)
    ensures
        s@ == cache@ + ".game-op-original"@,
{
    concat(cache, ".game-op-original")
}

/// What redirecting the cache to the optimized copies comes to, given what is
/// on disk.
#[derive(Debug, Clone, Copy, PartialEq, Eq, Structural)]
pub enum RedirectPlan {
    /// Neither the cache nor its backup exists: there is nothing to redirect.
    CacheMissing,
    /// The cache is already a link: only the output folder is made where missing.
    AlreadyRedirected { create_output: bool },
    /// Make the output folder where missing, move the cache aside to its backup
    /// unless a backup is already kept, then link the cache to the output folder.
    Redirect { create_output: bool, back_up: bool },
}

/// The plan for redirecting the cache, from whether the cache, its backup and
/// the output folder exist and whether the cache is a link already. A cache that
/// was moved aside earlier counts as found through its backup, and an existing
/// backup is never overwritten.
pub fn plan_redirection(
    cache_exists: bool,
    backup_exists: bool,
    output_exists: bool,
    cache_is_link: bool,
) -> (p: RedirectPlan)
    ensures
        !cache_exists && !backup_exists ==> p == RedirectPlan::CacheMissing,
        (cache_exists || backup_exists) && cache_is_link ==> p == (RedirectPlan::AlreadyRedirected {
            create_output: !output_exists,
        }),
        (cache_exists || backup_exists) && !cache_is_link ==> p == (RedirectPlan::Redirect {
            create_output: !output_exists,
            back_up: !backup_exists,
        }),
{
    if !cache_exists && !backup_exists {
        RedirectPlan::CacheMissing
    } else if cache_is_link {
        RedirectPlan::AlreadyRedirected { create_output: !output_exists }
    } else {
        RedirectPlan::Redirect { create_output: !output_exists, back_up: !backup_exists }
    }
}

} // verus!
