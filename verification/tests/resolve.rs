use sfz::Args;
use sfz::ConfigError;
use sfz::FsProbes;
use sfz::IntKind;
use sfz::RawFlags;

fn flags() -> RawFlags {
    RawFlags {
        address: Some("0.0.0.0".to_string()),
        port: Some("5000".to_string()),
        cache: Some("0".to_string()),
        path: Some(".".to_string()),
        cors: false,
        unzipped: false,
        all: false,
        no_ignore: false,
        follow_links: false,
    }
}

fn probes() -> FsProbes {
    FsProbes {
        exists: true,
        cwd: Some("/srv/site".to_string()),
        canonical: Some("/srv/site".to_string()),
    }
}

#[test]
fn defaults_resolve() {
    let a = Args::parse(&flags(), &probes()).unwrap();
    assert_eq!(a.address, "0.0.0.0");
    assert_eq!(a.port, 5000);
    assert_eq!(a.cache, 0);
    assert!(!a.cors);
    assert!(a.compress);
    assert_eq!(a.path, "/srv/site");
    assert!(!a.all);
    assert!(a.ignore);
    assert!(!a.follow_links);
}

#[test]
fn compression_is_negation_of_unzipped() {
    let mut f = flags();
    assert!(Args::parse(&f, &probes()).unwrap().compress);
    f.unzipped = true;
    assert!(!Args::parse(&f, &probes()).unwrap().compress);
}

#[test]
fn ignore_is_negation_of_no_ignore() {
    let mut f = flags();
    assert!(Args::parse(&f, &probes()).unwrap().ignore);
    f.no_ignore = true;
    assert!(!Args::parse(&f, &probes()).unwrap().ignore);
}

#[test]
fn presence_flags_carry_over() {
    let mut f = flags();
    f.cors = true;
    f.all = true;
    f.follow_links = true;
    let a = Args::parse(&f, &probes()).unwrap();
    assert!(a.cors);
    assert!(a.all);
    assert!(a.follow_links);
}

#[test]
fn port_out_of_sixteen_bit_range_is_invalid_argument() {
    let mut f = flags();
    f.port = Some("70000".to_string());
    assert_eq!(
        Args::parse(&f, &probes()),
        Err(ConfigError::InvalidArgument {
            value: "70000".to_string(),
            target: IntKind::Unsigned16,
        })
    );
}

#[test]
fn absent_port_is_invalid_argument() {
    let mut f = flags();
    f.port = None;
    assert_eq!(
        Args::parse(&f, &probes()),
        Err(ConfigError::InvalidArgument { value: "".to_string(), target: IntKind::Unsigned16 })
    );
}

#[test]
fn bad_cache_is_invalid_argument() {
    let mut f = flags();
    f.cache = Some("abc".to_string());
    assert_eq!(
        Args::parse(&f, &probes()),
        Err(ConfigError::InvalidArgument { value: "abc".to_string(), target: IntKind::Unsigned32 })
    );
}

#[test]
fn port_error_comes_before_cache_error() {
    let mut f = flags();
    f.port = Some("bad-port".to_string());
    f.cache = Some("bad-cache".to_string());
    assert_eq!(
        Args::parse(&f, &probes()),
        Err(ConfigError::InvalidArgument {
            value: "bad-port".to_string(),
            target: IntKind::Unsigned16,
        })
    );
}

#[test]
fn cache_error_comes_before_path_error() {
    let mut f = flags();
    f.cache = Some("bad-cache".to_string());
    let mut p = probes();
    p.exists = false;
    assert_eq!(
        Args::parse(&f, &p),
        Err(ConfigError::InvalidArgument {
            value: "bad-cache".to_string(),
            target: IntKind::Unsigned32,
        })
    );
}

#[test]
fn missing_path_fails_resolution() {
    let mut f = flags();
    f.path = Some("/tmp/missing-xyz".to_string());
    let mut p = probes();
    p.exists = false;
    assert_eq!(
        Args::parse(&f, &p),
        Err(ConfigError::PathNotFound { path: "/tmp/missing-xyz".to_string() })
    );
}

#[test]
fn absent_address_defaults_to_empty() {
    let mut f = flags();
    f.address = None;
    let a = Args::parse(&f, &probes()).unwrap();
    assert_eq!(a.address, "");
}

#[test]
fn absolute_path_kept_verbatim() {
    let mut f = flags();
    f.path = Some("/srv/other".to_string());
    let a = Args::parse(&f, &probes()).unwrap();
    assert_eq!(a.path, "/srv/other");
}
