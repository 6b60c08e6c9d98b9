use fog_ingest_enclave::build_info::{get_build_info, BuildInfo};

#[test]
fn new_build_info_is_empty() {
    let info = BuildInfo::new();
    assert_eq!(info.git_commit, "");
    assert_eq!(info.profile, "");
    assert_eq!(info.debug, "");
    assert_eq!(info.opt_level, "");
    assert_eq!(info.debug_assertions, "");
    assert_eq!(info.target_arch, "");
    assert_eq!(info.target_feature, "");
    assert_eq!(info.rustflags, "");
    assert_eq!(info.sgx_mode, "");
    assert_eq!(info.ias_mode, "");
}

#[test]
fn setter_changes_its_own_item_only() {
    let mut info = BuildInfo::new();
    info.set_profile(String::from("release"));
    let mut expected = BuildInfo::new();
    expected.profile = String::from("release");
    assert_eq!(info, expected);
    info.set_sgx_mode(String::from("HW"));
    expected.sgx_mode = String::from("HW");
    assert_eq!(info, expected);
    info.set_git_commit(String::from("abc"));
    info.set_debug(String::from("d"));
    info.set_opt_level(String::from("o"));
    info.set_debug_assertions(String::from("da"));
    info.set_target_arch(String::from("ta"));
    info.set_target_feature(String::from("tf"));
    info.set_rustflags(String::from("rf"));
    info.set_ias_mode(String::from("im"));
    assert_eq!(info, get_build_info("abc", "release", "d", "o", "da", "ta", "tf", "rf", "HW", "im"));
}

#[test]
fn get_build_info_puts_each_text_in_its_item() {
    let info = get_build_info(
        "0123abc", "release", "false", "3", "false", "x86_64", "adx,aes", "-C target-cpu=skylake",
        "HW", "PROD",
    );
    assert_eq!(info.git_commit, "0123abc");
    assert_eq!(info.profile, "release");
    assert_eq!(info.debug, "false");
    assert_eq!(info.opt_level, "3");
    assert_eq!(info.debug_assertions, "false");
    assert_eq!(info.target_arch, "x86_64");
    assert_eq!(info.target_feature, "adx,aes");
    assert_eq!(info.rustflags, "-C target-cpu=skylake");
    assert_eq!(info.sgx_mode, "HW");
    assert_eq!(info.ias_mode, "PROD");
}
