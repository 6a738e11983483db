//! The sandbox policy selector and its platform dispatch.
//!
//! Selection maps the user-supplied flags to one confinement policy; it is
//! pure and never silently assumes "no confinement".  Dispatch picks the
//! one enforcement back end that fits the host kernel family, and fails
//! fast with an explicit unsupported-platform error everywhere else.

use vstd::prelude::*;

verus! {

/// The explicit sandbox-mode flag a user may pass.
#[derive(Clone, Copy, Debug, PartialEq, Eq, Structural)]
pub enum SandboxModeFlag {
    /// Run with no confinement at all.
    NoConfinement,
    /// Read-only filesystem.
    ReadOnly,
    /// Writes allowed under the workspace grant root only.
    WorkspaceWrite,
}

/// The confinement policy selected once per session or debug invocation.
#[derive(Clone, Copy, Debug, PartialEq, Eq, Structural)]
pub enum SandboxPolicy {
    /// No confinement.
    NoConfinement,
    /// Read-only filesystem.
    ReadOnlyFs,
    /// Writes allowed under the workspace grant root.
    WorkspaceWrite,
    /// Workspace-write plus network deny plus no interactive prompts.
    FullAuto,
}

/// The data the enforcement dispatcher needs for one policy: where writes
/// may land, whether the network is reachable, and whether the session may
/// stop to ask the user anything.
#[derive(Clone, Debug, PartialEq, Eq)]
pub struct Confinement {
    pub writable_root: Option<String>,
    pub network_allowed: bool,
    pub interactive_prompts: bool,
}

/// A host kernel family, as detected at process startup.
#[derive(Clone, Copy, Debug, PartialEq, Eq, Structural)]
pub enum Platform {
    MacOs,
    Linux,
    Other,
}

/// One of the two mutually exclusive enforcement back ends.
#[derive(Clone, Copy, Debug, PartialEq, Eq, Structural)]
pub enum SandboxBackend {
    /// The macOS back end.
    Seatbelt,
    /// The Linux back end.
    Landlock,
}

/// A sandbox back end was asked for on a host it does not support.
#[derive(Clone, Copy, Debug, PartialEq, Eq, Structural)]
pub enum PlatformError {
    UnsupportedPlatform,
}

/// What `create_sandbox_policy` returns: full-auto dominates any explicit
/// flag; otherwise the explicit flag is used verbatim; with neither flag
/// the default is the most restrictive available policy.
pub open spec fn select_spec(full_auto: bool, explicit: Option<SandboxModeFlag>) -> SandboxPolicy {
    if full_auto {
        SandboxPolicy::FullAuto
    } else {
        match explicit {
            Some(SandboxModeFlag::NoConfinement) => SandboxPolicy::NoConfinement,
            Some(SandboxModeFlag::ReadOnly) => SandboxPolicy::ReadOnlyFs,
            Some(SandboxModeFlag::WorkspaceWrite) => SandboxPolicy::WorkspaceWrite,
            None => SandboxPolicy::ReadOnlyFs,
        }
    }
}

/// Resolves the full-auto flag and the explicit sandbox-mode flag to one
/// policy.  Pure: no side effects, no environment reads.
pub fn create_sandbox_policy(full_auto: bool, sandbox: Option<SandboxModeFlag>) -> (p:
    SandboxPolicy)
    ensures
        p == select_spec(full_auto, sandbox),
{
    if full_auto {
        SandboxPolicy::FullAuto
    } else {
        match sandbox {
            Some(SandboxModeFlag::NoConfinement) => SandboxPolicy::NoConfinement,
            Some(SandboxModeFlag::ReadOnly) => SandboxPolicy::ReadOnlyFs,
            Some(SandboxModeFlag::WorkspaceWrite) => SandboxPolicy::WorkspaceWrite,
            None => SandboxPolicy::ReadOnlyFs,
        }
    }
}

/// Full-auto dominance: with the full-auto flag set, selection returns the
/// full-auto policy for every value of the explicit flag.
pub proof fn lemma_full_auto_dominance(explicit: Option<SandboxModeFlag>)
    ensures
        select_spec(true, explicit) == SandboxPolicy::FullAuto,
{
}

/// Expands one policy to the descriptor the enforcement dispatcher needs.
/// Full-auto means workspace-write confinement, network denied, and no
/// interactive prompts.
pub fn confinement_of(policy: SandboxPolicy, grant_root: String) -> (c: Confinement)
    ensures
        policy == SandboxPolicy::NoConfinement ==> c == (Confinement {
            writable_root: None::<String>,
            network_allowed: true,
            interactive_prompts: true,
        }),
        policy == SandboxPolicy::ReadOnlyFs ==> c == (Confinement {
            writable_root: None::<String>,
            network_allowed: false,
            interactive_prompts: true,
        }),
        policy == SandboxPolicy::WorkspaceWrite ==> c == (Confinement {
            writable_root: Some(grant_root),
            network_allowed: true,
            interactive_prompts: true,
        }),
        policy == SandboxPolicy::FullAuto ==> c == (Confinement {
            writable_root: Some(grant_root),
            network_allowed: false,
            interactive_prompts: false,
        }),
{
    match policy {
        SandboxPolicy::NoConfinement => Confinement {
            writable_root: None,
            network_allowed: true,
            interactive_prompts: true,
        },
        SandboxPolicy::ReadOnlyFs => Confinement {
            writable_root: None,
            network_allowed: false,
            interactive_prompts: true,
        },
        SandboxPolicy::WorkspaceWrite => Confinement {
            writable_root: Some(grant_root),
            network_allowed: true,
            interactive_prompts: true,
        },
        SandboxPolicy::FullAuto => Confinement {
            writable_root: Some(grant_root),
            network_allowed: false,
            interactive_prompts: false,
        },
    }
}

/// Picks the back end for the host: exactly one per supported kernel
/// family, an explicit error everywhere else, never a silent skip.
pub fn select_backend(platform: Platform) -> (r: Result<SandboxBackend, PlatformError>)
    ensures
        platform == Platform::MacOs ==> r == Ok::<SandboxBackend, PlatformError>(
            SandboxBackend::Seatbelt,
        ),
        platform == Platform::Linux ==> r == Ok::<SandboxBackend, PlatformError>(
            SandboxBackend::Landlock,
        ),
        platform == Platform::Other ==> r == Err::<SandboxBackend, PlatformError>(
            PlatformError::UnsupportedPlatform,
        ),
{
    match platform {
        Platform::MacOs => Ok(SandboxBackend::Seatbelt),
        Platform::Linux => Ok(SandboxBackend::Landlock),
        Platform::Other => Err(PlatformError::UnsupportedPlatform),
    }
}

/// The Landlock debug surface: succeeds exactly on Linux hosts.
pub fn landlock_backend(platform: Platform) -> (r: Result<SandboxBackend, PlatformError>)
    ensures
        r is Ok <==> platform == Platform::Linux,
        r is Ok ==> r == Ok::<SandboxBackend, PlatformError>(SandboxBackend::Landlock),
        r is Err ==> r == Err::<SandboxBackend, PlatformError>(PlatformError::UnsupportedPlatform),
{
    match platform {
        Platform::Linux => Ok(SandboxBackend::Landlock),
        _ => Err(PlatformError::UnsupportedPlatform),
    }
}

/// The Seatbelt debug surface: succeeds exactly on macOS hosts.
pub fn seatbelt_backend(platform: Platform) -> (r: Result<SandboxBackend, PlatformError>)
    ensures
        r is Ok <==> platform == Platform::MacOs,
        r is Ok ==> r == Ok::<SandboxBackend, PlatformError>(SandboxBackend::Seatbelt),
        r is Err ==> r == Err::<SandboxBackend, PlatformError>(PlatformError::UnsupportedPlatform),
{
    match platform {
        Platform::MacOs => Ok(SandboxBackend::Seatbelt),
        _ => Err(PlatformError::UnsupportedPlatform),
    }
}

impl PlatformError {
    /// The explicit message naming the missing capability.
    pub fn message(&self) -> (m: String)
        ensures
            m@ == "unsupported platform for the requested sandbox back end"@,
    {
        "unsupported platform for the requested sandbox back end".to_owned()
    }
}

} // verus!
