use updater::adoptium::{AvailableReleases, Binary, Package, Release, VersionData};
use updater::builder::{
    build_catalog, plan_requests, FetchOutcome, FetchRequest, ReleaseType, Vendor,
};
use updater::errors::CatalogError;

fn summary(
    available: Vec<u64>,
    lts: Vec<u64>,
    most_recent_release: u64,
    most_recent_version: u64,
) -> AvailableReleases {
    AvailableReleases {
        available_lts_releases: lts,
        available_releases: available,
        most_recent_feature_release: most_recent_release,
        most_recent_feature_version: most_recent_version,
        tip_version: most_recent_version,
    }
}

fn candidate(major: u64, semver: &str) -> Release {
    Release {
        binaries: vec![Binary {
            architecture: "x64".to_string(),
            download_count: 0,
            heap_size: "normal".to_string(),
            image_type: "jdk".to_string(),
            jvm_impl: "hotspot".to_string(),
            os: "linux".to_string(),
            package: Package {
                checksum: String::new(),
                checksum_link: String::new(),
                download_count: 0,
                link: format!("https://example.invalid/jdk{}.tar.gz", major),
                metadata_link: String::new(),
                name: String::new(),
                size: 0,
            },
            project: "jdk".to_string(),
            scm_ref: String::new(),
            updated_at: String::new(),
        }],
        download_count: 0,
        id: String::new(),
        release_link: String::new(),
        release_type: "ga".to_string(),
        source: None,
        timestamp: String::new(),
        updated_at: String::new(),
        vendor: String::new(),
        version_data: VersionData {
            build: 1,
            major,
            minor: 0,
            openjdk_version: semver.to_string(),
            security: 0,
            semver: semver.to_string(),
        },
    }
}

#[test]
fn plan_adds_early_access_fetch_for_unlisted_latest() {
    let s = summary(vec![11, 17], vec![11, 17], 17, 21);
    let plan = plan_requests(&s);
    assert_eq!(
        plan,
        vec![
            FetchRequest { version: 11, release_type: ReleaseType::Ga },
            FetchRequest { version: 17, release_type: ReleaseType::Ga },
            FetchRequest { version: 21, release_type: ReleaseType::Ea },
        ]
    );
}

#[test]
fn plan_skips_early_access_when_latest_is_listed() {
    let s = summary(vec![11, 17], vec![11, 17], 17, 17);
    let plan = plan_requests(&s);
    assert_eq!(
        plan,
        vec![
            FetchRequest { version: 11, release_type: ReleaseType::Ga },
            FetchRequest { version: 17, release_type: ReleaseType::Ga },
        ]
    );
}

#[test]
fn build_collects_best_per_version() {
    let s = summary(vec![11, 17], vec![11, 17], 17, 17);
    let outcomes = vec![
        FetchOutcome::Page(vec![candidate(11, "11.0.14+1")]),
        FetchOutcome::Page(vec![candidate(17, "17.0.1+9")]),
    ];
    let cat = build_catalog(&s, outcomes, true).unwrap();
    assert_eq!(cat.len(), 2);
    assert_eq!(cat[0].0, 11);
    assert_eq!(cat[0].1.version_data.major, 11);
    assert_eq!(cat[1].0, 17);
    assert_eq!(cat[1].1.version_data.major, 17);
}

#[test]
fn mandatory_fetch_failure_is_fatal() {
    let s = summary(vec![11, 17], vec![11, 17], 17, 17);
    let outcomes = vec![
        FetchOutcome::Failure("connection reset".to_string()),
        FetchOutcome::Page(vec![candidate(17, "17.0.1+9")]),
    ];
    let err = build_catalog(&s, outcomes, false).unwrap_err();
    assert!(matches!(err, CatalogError::Transport { .. }));
}

#[test]
fn empty_mandatory_page_is_fatal() {
    let s = summary(vec![11], vec![11], 11, 11);
    let outcomes = vec![FetchOutcome::Page(Vec::new())];
    let err = build_catalog(&s, outcomes, false).unwrap_err();
    assert!(matches!(err, CatalogError::NoCandidates { version: 11 }));
}

#[test]
fn failed_fallback_is_fatal_for_primary_vendor() {
    let s = summary(vec![17], vec![17], 17, 21);
    let outcomes = vec![
        FetchOutcome::Page(vec![candidate(17, "17.0.1+9")]),
        FetchOutcome::Failure("no early access build".to_string()),
    ];
    let err = build_catalog(&s, outcomes, Vendor::Temurin.fallback_is_fatal()).unwrap_err();
    assert!(matches!(err, CatalogError::Transport { .. }));
}

#[test]
fn failed_fallback_is_tolerated_for_secondary_vendor() {
    let s = summary(vec![17], vec![17], 17, 21);
    let outcomes = vec![
        FetchOutcome::Page(vec![candidate(17, "17.0.1+9")]),
        FetchOutcome::Failure("no early access build".to_string()),
    ];
    let cat = build_catalog(&s, outcomes, Vendor::Semeru.fallback_is_fatal()).unwrap();
    assert_eq!(cat.len(), 1);
    assert_eq!(cat[0].0, 17);
}

#[test]
fn successful_fallback_adds_latest_entry() {
    let s = summary(vec![17], vec![17], 17, 21);
    let outcomes = vec![
        FetchOutcome::Page(vec![candidate(17, "17.0.1+9")]),
        FetchOutcome::Page(vec![candidate(21, "21+3-ea")]),
    ];
    let cat = build_catalog(&s, outcomes, true).unwrap();
    assert_eq!(cat.len(), 2);
    assert_eq!(cat[1].0, 21);
    assert_eq!(cat[1].1.version_data.major, 21);
}
