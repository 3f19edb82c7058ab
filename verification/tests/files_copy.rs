use rglgate::files::{apply_copy, copy_needed, userdir, OverwritePolicy, PathSpec};

#[test]
fn resolve_normal_is_verbatim() {
    let p = PathSpec::Normal("rgldir/nethackrc".to_string());
    assert_eq!(p.resolve("alice"), "rgldir/nethackrc");
}

#[test]
fn resolve_userdir_is_under_private_directory() {
    let p = PathSpec::UserDir("nethack/nethackrc".to_string());
    assert_eq!(p.resolve("alice"), "rgldir/userdata/alice/nethack/nethackrc");
    assert_eq!(p.resolve("bob"), "rgldir/userdata/bob/nethack/nethackrc");
}

#[test]
fn userdir_path_shape() {
    assert_eq!(userdir("alice"), "rgldir/userdata/alice");
}

#[test]
fn copy_needed_follows_policy() {
    assert!(copy_needed(&OverwritePolicy::OverwriteExisting, true));
    assert!(copy_needed(&OverwritePolicy::OverwriteExisting, false));
    assert!(!copy_needed(&OverwritePolicy::IgnoreExisting, true));
    assert!(copy_needed(&OverwritePolicy::IgnoreExisting, false));
}

#[test]
fn ignore_existing_never_overwrites() {
    let custom = b"OPTIONS=color".to_vec();
    let default = b"# default rc".to_vec();
    let after = apply_copy(&OverwritePolicy::IgnoreExisting, Some(&custom), &default);
    assert_eq!(after, custom);
}

#[test]
fn ignore_existing_is_idempotent() {
    let default = b"# default rc".to_vec();
    let once = apply_copy(&OverwritePolicy::IgnoreExisting, None, &default);
    let twice = apply_copy(&OverwritePolicy::IgnoreExisting, Some(&once), &default);
    assert_eq!(once, default);
    assert_eq!(twice, once);
}

#[test]
fn overwrite_existing_reflects_latest_source() {
    let custom = b"OPTIONS=color".to_vec();
    let default = b"# default rc".to_vec();
    let after = apply_copy(&OverwritePolicy::OverwriteExisting, Some(&custom), &default);
    assert_eq!(after, default);
    let fresh = apply_copy(&OverwritePolicy::OverwriteExisting, None, &default);
    assert_eq!(fresh, default);
}
