use sfz::effective_path;
use sfz::resolve_path;
use sfz::AccessCause;
use sfz::ConfigError;
use sfz::FsProbes;

fn probes(exists: bool, cwd: Option<&str>, canonical: Option<&str>) -> FsProbes {
    FsProbes {
        exists,
        cwd: cwd.map(|s| s.to_string()),
        canonical: canonical.map(|s| s.to_string()),
    }
}

#[test]
fn absolute_existing_path_is_returned_unchanged() {
    let r = resolve_path("/usr", &probes(true, Some("/home/user"), Some("/usr")));
    assert_eq!(r, Ok("/usr".to_string()));
}

#[test]
fn absolute_path_ignores_probe_canonical_form() {
    let r = resolve_path("/var/../var", &probes(true, Some("/home/user"), Some("/var")));
    assert_eq!(r, Ok("/var/../var".to_string()));
}

#[test]
fn relative_path_resolves_to_canonical_join() {
    let r = resolve_path("docs", &probes(true, Some("/home/user"), Some("/home/user/docs")));
    assert_eq!(r, Ok("/home/user/docs".to_string()));
}

#[test]
fn missing_path_is_path_not_found() {
    let r = resolve_path("/tmp/missing-xyz", &probes(false, None, None));
    assert_eq!(r, Err(ConfigError::PathNotFound { path: "/tmp/missing-xyz".to_string() }));
}

#[test]
fn empty_path_means_current_directory() {
    assert_eq!(effective_path(""), ".".to_string());
    let r = resolve_path("", &probes(true, Some("/home/user"), Some("/home/user")));
    assert_eq!(r, Ok("/home/user".to_string()));
}

#[test]
fn dot_resolves_to_canonical_current_directory() {
    let r = resolve_path(".", &probes(true, Some("/home/user"), Some("/home/user")));
    assert_eq!(r, Ok("/home/user".to_string()));
}

#[test]
fn failed_cwd_lookup_is_access_error() {
    let r = resolve_path("docs", &probes(true, None, None));
    assert_eq!(
        r,
        Err(ConfigError::PathAccess {
            path: "docs".to_string(),
            cause: AccessCause::CurrentDirLookup,
        })
    );
}

#[test]
fn failed_canonicalization_is_access_error() {
    let r = resolve_path("docs", &probes(true, Some("/home/user"), None));
    assert_eq!(
        r,
        Err(ConfigError::PathAccess {
            path: "docs".to_string(),
            cause: AccessCause::Canonicalize,
        })
    );
}

#[test]
fn missing_wins_over_other_failures() {
    let r = resolve_path("docs", &probes(false, None, None));
    assert_eq!(r, Err(ConfigError::PathNotFound { path: "docs".to_string() }));
}
