use updater::adoptium::{Binary, Package, Release, VersionData};
use updater::errors::CatalogError;

fn package(link: &str) -> Package {
    Package {
        checksum: String::new(),
        checksum_link: String::new(),
        download_count: 0,
        link: link.to_string(),
        metadata_link: String::new(),
        name: String::new(),
        size: 0,
    }
}

fn binary(link: &str) -> Binary {
    Binary {
        architecture: "x64".to_string(),
        download_count: 0,
        heap_size: "normal".to_string(),
        image_type: "jdk".to_string(),
        jvm_impl: "hotspot".to_string(),
        os: "linux".to_string(),
        package: package(link),
        project: "jdk".to_string(),
        scm_ref: String::new(),
        updated_at: String::new(),
    }
}

fn candidate(major: u64, minor: u64, security: u64, build: u64, semver: &str) -> Release {
    Release {
        binaries: vec![binary("https://example.invalid/jdk.tar.gz")],
        download_count: 0,
        id: String::new(),
        release_link: String::new(),
        release_type: "ga".to_string(),
        source: None,
        timestamp: String::new(),
        updated_at: String::new(),
        vendor: String::new(),
        version_data: VersionData {
            build,
            major,
            minor,
            openjdk_version: semver.to_string(),
            security,
            semver: semver.to_string(),
        },
    }
}

#[test]
fn best_release_returns_maximum_of_page() {
    let page = vec![
        candidate(17, 0, 1, 9, "17.0.1+9"),
        candidate(17, 0, 2, 1, "17.0.2+1"),
    ];
    let best = updater::adoptium::best_release(17, page).unwrap();
    assert_eq!(best.version_data.security, 2);
    assert_eq!(best.version_data.build, 1);
}

#[test]
fn best_release_prefers_qualified_build_on_numeric_tie() {
    let page = vec![
        candidate(17, 0, 1, 9, "17.0.1+9-beta"),
        candidate(17, 0, 1, 9, "17.0.1+9"),
    ];
    let best = updater::adoptium::best_release(17, page).unwrap();
    // "beta" sorts above the empty qualifier, so the first candidate wins.
    assert_eq!(best.version_data.semver, "17.0.1+9-beta".to_string());
}

#[test]
fn best_release_keeps_last_of_equal_candidates() {
    let mut first = candidate(17, 0, 1, 9, "17.0.1+9");
    first.id = "first".to_string();
    let mut second = candidate(17, 0, 1, 9, "17.0.1+9");
    second.id = "second".to_string();
    let best = updater::adoptium::best_release(17, vec![first, second]).unwrap();
    assert_eq!(best.id, "second".to_string());
}

#[test]
fn best_release_fails_on_empty_page() {
    let err = updater::adoptium::best_release(21, Vec::new()).unwrap_err();
    assert!(matches!(err, CatalogError::NoCandidates { version: 21 }));
}
