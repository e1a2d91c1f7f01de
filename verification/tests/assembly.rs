use updater::adoptium::{AvailableReleases, Binary, Package, VersionData};
use updater::builder::{build_catalog, plan_requests, FetchOutcome, Vendor};
use updater::catalog::{assemble, assemble_system, resolve_catalog, resolve_release, Release};
use updater::errors::{CatalogError, PointerKind};

fn resolved(major: u64, version: &str, sha: &str) -> Release {
    Release {
        link: format!("https://example.invalid/jdk{}.tar.gz", major),
        major_version: major,
        java_version: version.to_string(),
        early_access: false,
        sha256: sha.to_string(),
    }
}

fn candidate(major: u64, semver: &str, n_binaries: usize) -> updater::adoptium::Release {
    let binary = Binary {
        architecture: "x64".to_string(),
        download_count: 0,
        heap_size: "normal".to_string(),
        image_type: "jdk".to_string(),
        jvm_impl: "hotspot".to_string(),
        os: "linux".to_string(),
        package: Package {
            checksum: String::new(),
            checksum_link: String::new(),
            download_count: 0,
            link: format!("https://example.invalid/jdk{}.tar.gz", major),
            metadata_link: String::new(),
            name: String::new(),
            size: 0,
        },
        project: "jdk".to_string(),
        scm_ref: String::new(),
        updated_at: String::new(),
    };
    let mut binaries = Vec::new();
    for _ in 0..n_binaries {
        binaries.push(Binary {
            architecture: binary.architecture.clone(),
            download_count: 0,
            heap_size: binary.heap_size.clone(),
            image_type: binary.image_type.clone(),
            jvm_impl: binary.jvm_impl.clone(),
            os: binary.os.clone(),
            package: Package {
                checksum: String::new(),
                checksum_link: String::new(),
                download_count: 0,
                link: binary.package.link.clone(),
                metadata_link: String::new(),
                name: String::new(),
                size: 0,
            },
            project: binary.project.clone(),
            scm_ref: String::new(),
            updated_at: String::new(),
        });
    }
    updater::adoptium::Release {
        binaries,
        download_count: 0,
        id: String::new(),
        release_link: String::new(),
        release_type: "ga".to_string(),
        source: None,
        timestamp: String::new(),
        updated_at: String::new(),
        vendor: String::new(),
        version_data: VersionData {
            build: 9,
            major,
            minor: 0,
            openjdk_version: semver.to_string(),
            security: 1,
            semver: semver.to_string(),
        },
    }
}

#[test]
fn resolve_release_checks_binary_count() {
    let good = candidate(17, "17.0.1+9", 1);
    let rel = resolve_release(17, &good, "abc123".to_string()).unwrap();
    assert_eq!(rel.link, "https://example.invalid/jdk17.tar.gz".to_string());
    assert_eq!(rel.major_version, 17);
    assert_eq!(rel.java_version, "17.0.1+9".to_string());
    assert!(!rel.early_access);
    assert_eq!(rel.sha256, "abc123".to_string());

    let none = candidate(17, "17.0.1+9", 0);
    let err = resolve_release(17, &none, "abc123".to_string()).unwrap_err();
    assert!(matches!(err, CatalogError::Schema { version: 17 }));

    let two = candidate(17, "17.0.1+9", 2);
    let err = resolve_release(17, &two, "abc123".to_string()).unwrap_err();
    assert!(matches!(err, CatalogError::Schema { version: 17 }));
}

#[test]
fn resolve_release_flags_early_access() {
    let mut ea = candidate(21, "21+3-ea", 1);
    ea.release_type = "ea".to_string();
    let rel = resolve_release(21, &ea, "def".to_string()).unwrap();
    assert!(rel.early_access);
}

#[test]
fn resolve_catalog_reports_missing_hash() {
    let entries = vec![(17, candidate(17, "17.0.1+9", 1))];
    let err = resolve_catalog(entries, vec![None]).unwrap_err();
    assert!(matches!(err, CatalogError::Hashing { version: 17 }));
}

#[test]
fn assemble_keys_by_slug_and_derives_pointers() {
    let catalog = vec![
        (11, resolved(11, "11.0.14+1", "aaa")),
        (17, resolved(17, "17.0.1+9", "bbb")),
    ];
    let sources = assemble(catalog, 17, 11, 11).unwrap();
    assert_eq!(sources.versions.len(), 2);
    assert_eq!(sources.versions[0].0, "jdk11".to_string());
    assert_eq!(sources.versions[1].0, "jdk17".to_string());
    assert_eq!(sources.latest.major_version, 17);
    assert_eq!(sources.stable.major_version, 11);
    assert_eq!(sources.lts.major_version, 11);
    // each pointer equals an entry reachable through the versions map
    let latest_entry = sources.get_version(&"jdk17".to_string()).unwrap();
    assert_eq!(latest_entry.sha256, sources.latest.sha256);
    let lts_entry = sources.get_version(&"jdk11".to_string()).unwrap();
    assert_eq!(lts_entry.sha256, sources.lts.sha256);
}

#[test]
fn assemble_fails_on_missing_pointer_target() {
    let catalog = vec![(17, resolved(17, "17.0.1+9", "bbb"))];
    let err = assemble(catalog, 17, 17, 11).unwrap_err();
    assert!(matches!(
        err,
        CatalogError::MissingPointer { pointer: PointerKind::Lts, version: 11 }
    ));
}

#[test]
fn assemble_reports_latest_before_stable() {
    let catalog = vec![(11, resolved(11, "11.0.14+1", "aaa"))];
    let err = assemble(catalog, 17, 21, 11).unwrap_err();
    assert!(matches!(
        err,
        CatalogError::MissingPointer { pointer: PointerKind::Latest, version: 17 }
    ));
}

#[test]
fn single_version_scenario_points_everything_at_one_release() {
    // The vendor advertises only version 17, which is also the most recent
    // feature version, feature release and long-term-support line.
    let summary = AvailableReleases {
        available_lts_releases: vec![17],
        available_releases: vec![17],
        most_recent_feature_release: 17,
        most_recent_feature_version: 17,
        tip_version: 17,
    };
    let plan = plan_requests(&summary);
    assert_eq!(plan.len(), 1);
    assert_eq!(plan[0].version, 17);

    let make_outcomes = || vec![FetchOutcome::Page(vec![candidate(17, "17.0.1+9", 1)])];
    let temurin_cat = build_catalog(
        &summary,
        make_outcomes(),
        Vendor::Temurin.fallback_is_fatal(),
    )
    .unwrap();
    let semeru_cat = build_catalog(
        &summary,
        make_outcomes(),
        Vendor::Semeru.fallback_is_fatal(),
    )
    .unwrap();

    let temurin_resolved =
        resolve_catalog(temurin_cat, vec![Some("cafe".to_string())]).unwrap();
    let semeru_resolved =
        resolve_catalog(semeru_cat, vec![Some("cafe".to_string())]).unwrap();

    let system = assemble_system(temurin_resolved, semeru_resolved, &summary).unwrap();
    for sources in [&system.temurin, &system.semeru] {
        let entry = sources.get_version(&"jdk17".to_string()).unwrap();
        assert_eq!(entry.major_version, 17);
        assert_eq!(entry.sha256, "cafe".to_string());
        for ptr in [&sources.latest, &sources.stable, &sources.lts] {
            assert_eq!(ptr.major_version, 17);
            assert_eq!(ptr.link, entry.link);
            assert_eq!(ptr.java_version, entry.java_version);
            assert_eq!(ptr.early_access, entry.early_access);
            assert_eq!(ptr.sha256, "cafe".to_string());
        }
    }
}
