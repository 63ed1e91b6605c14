use clap::error::ErrorKind;
use clap::{Arg, Command};
use spacetimedb_vm::archive::{validate_bucket, ArchiveUrl};

fn parse_url(raw: &str) -> Result<ArchiveUrl, String> {
    raw.parse()
}

#[test]
fn parses_bucket_only() {
    let v: ArchiveUrl = "s3://my-bucket".parse().unwrap();
    assert_eq!(v.bucket, "my-bucket");
    assert_eq!(v.prefix, "");
    assert_eq!(v.to_string(), "s3://my-bucket");
}

#[test]
fn normalizes_prefix() {
    let v1: ArchiveUrl = "s3://bkt/prod".parse().unwrap();
    assert_eq!(v1.prefix, "prod/");
    let v2: ArchiveUrl = "s3://bkt/prod/cluster".parse().unwrap();
    assert_eq!(v2.prefix, "prod/cluster/");
    let v3: ArchiveUrl = "s3://bkt/prod/cluster/".parse().unwrap();
    assert_eq!(v3.prefix, "prod/cluster/");
}

#[test]
fn rejects_bad_scheme_and_bucket() {
    for bad in [
        "http://bkt/foo",
        "s3:/bkt/foo",
        "s3://",
        "s3://Bad",
        "s3://my_bucket",
        "s3://-badstart",
        "s3://badend-",
        "s3://a..b",
        "s3://a",
    ] {
        assert!(bad.parse::<ArchiveUrl>().is_err(), "should fail: {bad}");
    }
}

#[test]
fn clap_value_parser_reports_errors() {
    let cmd = Command::new("test").arg(
        Arg::new("archive-url")
            .long("archive-url")
            .value_parser(parse_url),
    );

    let ok = cmd
        .clone()
        .try_get_matches_from(["test", "--archive-url", "s3://ok-bkt/path"])
        .unwrap();
    let parsed = ok.get_one::<ArchiveUrl>("archive-url").unwrap();
    assert_eq!(parsed.bucket, "ok-bkt");
    assert_eq!(parsed.prefix, "path/");

    let err = cmd
        .try_get_matches_from(["test", "--archive-url", "s3://Bad/"])
        .unwrap_err();
    assert_eq!(err.kind(), ErrorKind::ValueValidation);
}

#[test]
fn each_rule_has_its_own_words() {
    assert_eq!(
        "http://bkt/foo".parse::<ArchiveUrl>().unwrap_err(),
        "expected URL starting with s3://"
    );
    assert_eq!(
        validate_bucket("ab").unwrap_err(),
        "bucket name must be 3..=63 characters"
    );
    assert_eq!(
        validate_bucket(&"a".repeat(64)).unwrap_err(),
        "bucket name must be 3..=63 characters"
    );
    assert_eq!(
        validate_bucket("-ab").unwrap_err(),
        "bucket must start and end with a letter or digit"
    );
    assert_eq!(
        validate_bucket("ab.").unwrap_err(),
        "bucket must start and end with a letter or digit"
    );
    assert_eq!(
        validate_bucket("a_b").unwrap_err(),
        "bucket may contain only lowercase letters, digits, '.' or '-'"
    );
    assert_eq!(
        validate_bucket("a..b").unwrap_err(),
        "bucket may not contain consecutive '.' characters"
    );
}

#[test]
fn bucket_length_limits_are_inclusive() {
    assert!(validate_bucket("abc").is_ok());
    assert!(validate_bucket(&"a".repeat(63)).is_ok());
    assert!(validate_bucket("a.b-c.0").is_ok());
}

#[test]
fn bucket_length_counts_bytes() {
    // Two characters, three bytes: long enough, but its last byte is no letter.
    assert_eq!(
        validate_bucket("a\u{e9}").unwrap_err(),
        "bucket must start and end with a letter or digit"
    );
    assert_eq!(
        "s3://a\u{e9}/x".parse::<ArchiveUrl>().unwrap_err(),
        "bucket must start and end with a letter or digit"
    );
}

#[test]
fn leading_slashes_of_the_prefix_are_dropped() {
    let v: ArchiveUrl = "s3://bkt///prod//x".parse().unwrap();
    assert_eq!(v.bucket, "bkt");
    assert_eq!(v.prefix, "prod//x/");
    let w: ArchiveUrl = "s3://bkt///".parse().unwrap();
    assert_eq!(w.prefix, "");
    let u: ArchiveUrl = "s3://bkt/".parse().unwrap();
    assert_eq!(u.prefix, "");
}

#[test]
fn prefix_may_hold_any_text() {
    let v: ArchiveUrl = "s3://bkt/caf\u{e9}".parse().unwrap();
    assert_eq!(v.prefix, "caf\u{e9}/");
}

#[test]
fn written_form_joins_bucket_and_prefix() {
    let v: ArchiveUrl = "s3://bkt/prod/cluster".parse().unwrap();
    assert_eq!(v.to_string(), "s3://bkt/prod/cluster/");
    let again: ArchiveUrl = v.to_string().parse().unwrap();
    assert_eq!(again, v);
}
