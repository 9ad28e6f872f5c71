//! Policy for installing an onscreen surface: skip, resize in place, or
//! recreate.

use vstd::prelude::*;

verus! {

/// How a surface request relates to the installed surface.
#[derive(Debug, Clone, Copy, PartialEq, Eq, Structural)]
pub enum RecreateKind {
    /// No surface was installed before.
    Initial,
    /// The native window belongs to the installed generation.
    SameGeneration,
    /// The native window belongs to a new generation.
    NewGeneration,
}

/// What to do with the installed surface.
#[derive(Debug, Clone, Copy, PartialEq, Eq, Structural)]
pub enum InstallPolicy {
    Skip,
    FastResize,
    FullRecreate,
}

/// Two optional sizes are equal.
pub open spec fn same_size(a: Option<(u32, u32)>, b: Option<(u32, u32)>) -> bool {
    a == b
}

/// The install policy: reuse is only allowed when native equivalence is
/// proven and no generation or force boundary asks for a fresh surface;
/// then an unchanged size is skipped and a changed one is resized in place
/// when an onscreen 2D context exists.
pub open spec fn install_policy_spec(
    kind: RecreateKind,
    native_equivalent: bool,
    installed_size: Option<(u32, u32)>,
    requested_size: Option<(u32, u32)>,
    has_onscreen_2d: bool,
    force_recreate: bool,
) -> InstallPolicy {
    if force_recreate || kind != RecreateKind::SameGeneration || !native_equivalent
        || installed_size is None || requested_size is None {
        InstallPolicy::FullRecreate
    } else if installed_size == requested_size {
        InstallPolicy::Skip
    } else if has_onscreen_2d {
        InstallPolicy::FastResize
    } else {
        InstallPolicy::FullRecreate
    }
}

/// Pure cold-path policy for installing an onscreen surface.
pub fn classify_surface_install(
    kind: RecreateKind,
    native_equivalent: bool,
    installed_size: Option<(u32, u32)>,
    requested_size: Option<(u32, u32)>,
    has_onscreen_2d: bool,
    force_recreate: bool,
) -> (p: InstallPolicy)
    ensures
        p == install_policy_spec(
            kind,
            native_equivalent,
            installed_size,
            requested_size,
            has_onscreen_2d,
            force_recreate,
        ),
{
    let same_generation = match kind {
        RecreateKind::SameGeneration => true,
        _ => false,
    };
    if force_recreate || !same_generation || !native_equivalent || installed_size.is_none()
        || requested_size.is_none() {
        return InstallPolicy::FullRecreate;
    }
    let (iw, ih) = match installed_size {
        Some(s) => s,
        None => (0, 0),
    };
    let (rw, rh) = match requested_size {
        Some(s) => s,
        None => (0, 0),
    };
    if iw == rw && ih == rh {
        InstallPolicy::Skip
    } else if has_onscreen_2d {
        InstallPolicy::FastResize
    } else {
        InstallPolicy::FullRecreate
    }
}

/// A surface from another generation, a forced recreation or an unproven
/// native equivalence always recreates.
pub proof fn law_no_cross_generation_reuse(
    kind: RecreateKind,
    native_equivalent: bool,
    installed_size: Option<(u32, u32)>,
    requested_size: Option<(u32, u32)>,
    has_onscreen_2d: bool,
    force_recreate: bool,
)
    requires
        kind != RecreateKind::SameGeneration || force_recreate || !native_equivalent,
    ensures
        install_policy_spec(
            kind,
            native_equivalent,
            installed_size,
            requested_size,
            has_onscreen_2d,
            force_recreate,
        ) == InstallPolicy::FullRecreate,
{
}

/// The installed surface is kept as it is exactly when nothing about it
/// changes: the same generation, proven native equivalence, no forced
/// recreation, and a requested size equal to the installed one in both
/// width and height.  It is resized in place exactly when only the size
/// differs (in either dimension) and an onscreen 2D context exists.
pub proof fn law_skip_only_when_size_unchanged(
    kind: RecreateKind,
    native_equivalent: bool,
    installed_size: Option<(u32, u32)>,
    requested_size: Option<(u32, u32)>,
    has_onscreen_2d: bool,
    force_recreate: bool,
)
    ensures
        ({
            let p = install_policy_spec(
                kind,
                native_equivalent,
                installed_size,
                requested_size,
                has_onscreen_2d,
                force_recreate,
            );
            let reusable = !force_recreate && kind == RecreateKind::SameGeneration && native_equivalent
                && installed_size is Some && requested_size is Some;
            &&& (p == InstallPolicy::Skip) <==> (reusable && (installed_size->0).0 == (requested_size->0).0
                && (installed_size->0).1 == (requested_size->0).1)
            &&& (p == InstallPolicy::FastResize) <==> (reusable && ((installed_size->0).0
                != (requested_size->0).0 || (installed_size->0).1 != (requested_size->0).1)
                && has_onscreen_2d)
        }),
{
}

} // verus!
