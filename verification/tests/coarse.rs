use updater::adoptium::{Binary, Package, Release, VersionData};
use updater::dedup::merge_coarse;
use updater::slug::{coarse_slug_of, slug_of};

fn candidate(major: u64, minor: u64, build: u64, semver: &str) -> Release {
    Release {
        binaries: vec![Binary {
            architecture: "x64".to_string(),
            download_count: 0,
            heap_size: "normal".to_string(),
            image_type: "jdk".to_string(),
            jvm_impl: "hotspot".to_string(),
            os: "linux".to_string(),
            package: Package {
                checksum: String::new(),
                checksum_link: String::new(),
                download_count: 0,
                link: format!("https://example.invalid/jdk{}-{}.tar.gz", major, build),
                metadata_link: String::new(),
                name: String::new(),
                size: 0,
            },
            project: "jdk".to_string(),
            scm_ref: String::new(),
            updated_at: String::new(),
        }],
        download_count: 0,
        id: String::new(),
        release_link: String::new(),
        release_type: "ga".to_string(),
        source: None,
        timestamp: String::new(),
        updated_at: String::new(),
        vendor: String::new(),
        version_data: VersionData {
            build,
            major,
            minor,
            openjdk_version: semver.to_string(),
            security: 1,
            semver: semver.to_string(),
        },
    }
}

#[test]
fn slug_strings() {
    assert_eq!(slug_of(17), "jdk17".to_string());
    assert_eq!(slug_of(8), "jdk8".to_string());
    assert_eq!(slug_of(110), "jdk110".to_string());
    assert_eq!(coarse_slug_of(17, 0), "1.17.0".to_string());
    assert_eq!(coarse_slug_of(8, 10), "1.8.10".to_string());
}

#[test]
fn higher_build_wins_within_one_coarse_slug() {
    let merged = merge_coarse(vec![
        candidate(17, 0, 9, "17.0.1+9"),
        candidate(17, 0, 10, "17.0.1+10"),
    ]);
    assert_eq!(merged.len(), 1);
    assert_eq!(merged[0].0, "1.17.0".to_string());
    assert_eq!(merged[0].1.version_data.build, 10);
}

#[test]
fn lower_build_does_not_replace_higher() {
    let merged = merge_coarse(vec![
        candidate(17, 0, 10, "17.0.1+10"),
        candidate(17, 0, 9, "17.0.1+9"),
    ]);
    assert_eq!(merged.len(), 1);
    assert_eq!(merged[0].1.version_data.build, 10);
}

#[test]
fn distinct_lines_keep_distinct_entries() {
    let merged = merge_coarse(vec![
        candidate(11, 0, 1, "11.0.14+1"),
        candidate(17, 0, 9, "17.0.1+9"),
        candidate(17, 1, 2, "17.1.0+2"),
    ]);
    assert_eq!(merged.len(), 3);
    assert_eq!(merged[0].0, "1.11.0".to_string());
    assert_eq!(merged[1].0, "1.17.0".to_string());
    assert_eq!(merged[2].0, "1.17.1".to_string());
}
