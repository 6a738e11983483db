use seeky::sandbox::{
    Confinement, Platform, PlatformError, SandboxBackend, SandboxModeFlag, SandboxPolicy,
    confinement_of, create_sandbox_policy, landlock_backend, seatbelt_backend, select_backend,
};

#[test]
fn full_auto_dominates_every_explicit_flag() {
    assert_eq!(create_sandbox_policy(true, None), SandboxPolicy::FullAuto);
    assert_eq!(
        create_sandbox_policy(true, Some(SandboxModeFlag::NoConfinement)),
        SandboxPolicy::FullAuto
    );
    assert_eq!(
        create_sandbox_policy(true, Some(SandboxModeFlag::ReadOnly)),
        SandboxPolicy::FullAuto
    );
    assert_eq!(
        create_sandbox_policy(true, Some(SandboxModeFlag::WorkspaceWrite)),
        SandboxPolicy::FullAuto
    );
}

#[test]
fn explicit_flag_is_used_verbatim() {
    assert_eq!(
        create_sandbox_policy(false, Some(SandboxModeFlag::NoConfinement)),
        SandboxPolicy::NoConfinement
    );
    assert_eq!(
        create_sandbox_policy(false, Some(SandboxModeFlag::ReadOnly)),
        SandboxPolicy::ReadOnlyFs
    );
    assert_eq!(
        create_sandbox_policy(false, Some(SandboxModeFlag::WorkspaceWrite)),
        SandboxPolicy::WorkspaceWrite
    );
}

#[test]
fn default_is_most_restrictive_not_no_confinement() {
    assert_eq!(create_sandbox_policy(false, None), SandboxPolicy::ReadOnlyFs);
}

#[test]
fn full_auto_confinement_denies_network_and_prompts() {
    let c = confinement_of(SandboxPolicy::FullAuto, "/work".to_string());
    assert_eq!(
        c,
        Confinement {
            writable_root: Some("/work".to_string()),
            network_allowed: false,
            interactive_prompts: false,
        }
    );
}

#[test]
fn backend_dispatch_is_exclusive_per_platform() {
    assert_eq!(select_backend(Platform::MacOs), Ok(SandboxBackend::Seatbelt));
    assert_eq!(select_backend(Platform::Linux), Ok(SandboxBackend::Landlock));
    assert_eq!(
        select_backend(Platform::Other),
        Err(PlatformError::UnsupportedPlatform)
    );
}

#[test]
fn landlock_debug_fails_off_linux() {
    assert_eq!(landlock_backend(Platform::Linux), Ok(SandboxBackend::Landlock));
    assert_eq!(
        landlock_backend(Platform::MacOs),
        Err(PlatformError::UnsupportedPlatform)
    );
    assert_eq!(
        landlock_backend(Platform::Other),
        Err(PlatformError::UnsupportedPlatform)
    );
}

#[test]
fn seatbelt_debug_fails_off_macos() {
    assert_eq!(seatbelt_backend(Platform::MacOs), Ok(SandboxBackend::Seatbelt));
    assert_eq!(
        seatbelt_backend(Platform::Linux),
        Err(PlatformError::UnsupportedPlatform)
    );
}

#[test]
fn platform_error_names_the_missing_capability() {
    let e = PlatformError::UnsupportedPlatform;
    assert!(e.message().contains("unsupported platform"));
}
