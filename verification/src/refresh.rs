//! What an asset pass writes for one asset: nothing while its optimized copy is
//! up to date, only a report in a dry run, and otherwise the rewritten asset or
//! a plain copy of it.

use vstd::prelude::*;

verus! {

/// What to do with one asset whose copy is not up to date.
#[derive(Debug, Clone, Copy, PartialEq, Eq, Structural)]
pub enum AssetAction {
    /// A dry run: say whether the asset would change, and write nothing.
    Report { changes: bool },
    /// Write the optimized asset to the output.
    Rewrite,
    /// Copy the asset to the output unchanged.
    Copy,
    /// The output is the asset itself and it needs no change: write nothing.
    Keep,
}

/// Whether the optimized copy is left alone: it is at least as new as the
/// asset, and it is not the asset itself.
pub open spec fn spec_is_up_to_date(output_fresh: bool, same_path: bool) -> bool {
    output_fresh && !same_path
}

pub fn is_up_to_date(output_fresh: bool, same_path: bool) -> (b: bool)
    ensures
        b == spec_is_up_to_date(output_fresh, same_path),
{
    output_fresh && !same_path
}

/// The action for an asset that `changes` under optimization, written to an
/// output that is the asset itself when `same_path`.
pub open spec fn spec_asset_action(dry_run: bool, changes: bool, same_path: bool) -> AssetAction {
    if dry_run {
        AssetAction::Report { changes }
    } else if changes {
        AssetAction::Rewrite
    } else if same_path {
        AssetAction::Keep
    } else {
        AssetAction::Copy
    }
}

pub fn asset_action(dry_run: bool, changes: bool, same_path: bool) -> (a: AssetAction)
    ensures
        a == spec_asset_action(dry_run, changes, same_path),
{
    if dry_run {
        AssetAction::Report { changes }
    } else if changes {
        AssetAction::Rewrite
    } else if same_path {
        AssetAction::Keep
    } else {
        AssetAction::Copy
    }
}

/// Whether the pass counts the asset as optimized after `a`.
pub open spec fn spec_counts_as_optimized(a: AssetAction) -> bool {
    match a {
        AssetAction::Report { changes } => changes,
        AssetAction::Rewrite => true,
        AssetAction::Copy => false,
        AssetAction::Keep => false,
    }
}

impl AssetAction {
    pub fn counts_as_optimized(&self) -> (b: bool)
        ensures
            b == spec_counts_as_optimized(*self),
    {
        match self {
            AssetAction::Report { changes } => *changes,
            AssetAction::Rewrite => true,
            AssetAction::Copy => false,
            AssetAction::Keep => false,
        }
    }
}

/// A dry run writes nothing, and a real run counts the same assets as optimized
/// as the dry run reports; nothing is ever copied onto itself.
pub proof fn lemma_asset_action_laws(dry_run: bool, changes: bool, same_path: bool)
    ensures
        dry_run ==> spec_asset_action(dry_run, changes, same_path) is Report,
        spec_counts_as_optimized(spec_asset_action(dry_run, changes, same_path)) == changes,
        spec_asset_action(dry_run, changes, same_path) is Copy ==> !same_path,
{
}

} // verus!
