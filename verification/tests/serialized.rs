use updater::catalog::Release;
use updater::json::{render_release, round_trip_release};

fn release() -> Release {
    Release {
        link: "https://example.invalid/jdk17.tar.gz".to_string(),
        major_version: 17,
        java_version: "17.0.1+9".to_string(),
        early_access: false,
        sha256: "0123abcd".to_string(),
    }
}

#[test]
fn rendering_uses_the_stable_field_identifiers() {
    let s = render_release(&release());
    let expected = "{\"link\":\"https://example.invalid/jdk17.tar.gz\",\"major_version\":17,\"java_version\":\"17.0.1+9\",\"early_access\":false,\"sha256\":\"0123abcd\"}";
    assert_eq!(s, expected.to_string());
}

#[test]
fn rendering_then_parsing_reproduces_the_release() {
    let r = release();
    let back = round_trip_release(&r);
    assert_eq!(back.link, r.link);
    assert_eq!(back.major_version, r.major_version);
    assert_eq!(back.java_version, r.java_version);
    assert_eq!(back.early_access, r.early_access);
    assert_eq!(back.sha256, r.sha256);
}

#[test]
fn round_trip_keeps_the_early_access_flag() {
    let mut r = release();
    r.early_access = true;
    r.major_version = 21;
    r.java_version = "21+3-ea".to_string();
    let back = round_trip_release(&r);
    assert!(back.early_access);
    assert_eq!(back.major_version, 21);
    assert_eq!(back.java_version, "21+3-ea".to_string());
}
