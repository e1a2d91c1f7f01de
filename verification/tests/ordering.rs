use updater::order::{compare_keys, lex_compare, qualifier_of, VersionKey, VersionOrdering};

fn key(major: u64, minor: u64, security: u64, build: u64, qualifier: &str) -> VersionKey {
    VersionKey { major, minor, security, build, qualifier: qualifier.to_string() }
}

#[test]
fn qualifier_extraction_takes_last_segment() {
    assert_eq!(qualifier_of("17.0.1+9-beta"), "beta".to_string());
    assert_eq!(qualifier_of("17.0.1+9"), "".to_string());
    assert_eq!(qualifier_of("18-ea-2-beta"), "beta".to_string());
    assert_eq!(qualifier_of("17.0.1+9-"), "".to_string());
}

#[test]
fn empty_qualifier_sorts_below_beta() {
    let a = key(17, 0, 1, 9, "");
    let b = key(17, 0, 1, 9, "beta");
    assert_eq!(compare_keys(&a, &b), VersionOrdering::Less);
    assert_eq!(compare_keys(&b, &a), VersionOrdering::Greater);
}

#[test]
fn numeric_components_dominate_qualifier() {
    let a = key(17, 0, 1, 9, "zzz");
    let b = key(17, 0, 2, 1, "");
    assert_eq!(compare_keys(&a, &b), VersionOrdering::Less);
    let c = key(11, 9, 9, 9, "zzz");
    let d = key(17, 0, 0, 0, "");
    assert_eq!(compare_keys(&c, &d), VersionOrdering::Less);
}

#[test]
fn equal_keys_compare_equal() {
    let a = key(17, 0, 1, 9, "beta");
    let b = key(17, 0, 1, 9, "beta");
    assert_eq!(compare_keys(&a, &b), VersionOrdering::Equal);
}

#[test]
fn trichotomy_on_sample_keys() {
    let keys = [
        key(17, 0, 1, 9, ""),
        key(17, 0, 1, 9, "beta"),
        key(17, 0, 2, 1, ""),
        key(11, 0, 14, 1, ""),
        key(17, 0, 1, 9, "alpha"),
    ];
    for a in keys.iter() {
        for b in keys.iter() {
            let ab = compare_keys(a, b);
            let ba = compare_keys(b, a);
            match ab {
                VersionOrdering::Less => assert_eq!(ba, VersionOrdering::Greater),
                VersionOrdering::Equal => assert_eq!(ba, VersionOrdering::Equal),
                VersionOrdering::Greater => assert_eq!(ba, VersionOrdering::Less),
            }
        }
    }
    for a in keys.iter() {
        for b in keys.iter() {
            for c in keys.iter() {
                if compare_keys(a, b) == VersionOrdering::Less
                    && compare_keys(b, c) == VersionOrdering::Less
                {
                    assert_eq!(compare_keys(a, c), VersionOrdering::Less);
                }
            }
        }
    }
}

#[test]
fn lexicographic_string_comparison() {
    assert_eq!(lex_compare("", ""), VersionOrdering::Equal);
    assert_eq!(lex_compare("", "a"), VersionOrdering::Less);
    assert_eq!(lex_compare("ab", "a"), VersionOrdering::Greater);
    assert_eq!(lex_compare("alpha", "beta"), VersionOrdering::Less);
    assert_eq!(lex_compare("beta", "beta"), VersionOrdering::Equal);
}
