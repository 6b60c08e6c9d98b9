//! The build metadata that a service reports about itself.

use vstd::prelude::*;

verus! {

/// The build metadata of a service, one text per item.
#[derive(Clone, Debug, PartialEq, Eq)]
pub struct BuildInfo {
    /// The commit that the service was built from.
    pub git_commit: String,
    /// The build profile.
    pub profile: String,
    /// Whether debug information was built in.
    pub debug: String,
    /// The optimization level.
    pub opt_level: String,
    /// Whether debug assertions were enabled.
    pub debug_assertions: String,
    /// The target architecture.
    pub target_arch: String,
    /// The target features that were enabled.
    pub target_feature: String,
    /// The flags handed to the compiler.
    pub rustflags: String,
    /// The SGX mode of the build.
    pub sgx_mode: String,
    /// The attestation-service mode of the build.
    pub ias_mode: String,
}

impl BuildInfo {
    /// A record with every item empty.
    pub fn new() -> (info: BuildInfo)
        ensures
            info.git_commit@ == Seq::<char>::empty(),
            info.profile@ == Seq::<char>::empty(),
            info.debug@ == Seq::<char>::empty(),
            info.opt_level@ == Seq::<char>::empty(),
            info.debug_assertions@ == Seq::<char>::empty(),
            info.target_arch@ == Seq::<char>::empty(),
            info.target_feature@ == Seq::<char>::empty(),
            info.rustflags@ == Seq::<char>::empty(),
            info.sgx_mode@ == Seq::<char>::empty(),
            info.ias_mode@ == Seq::<char>::empty(),
    {
        BuildInfo {
            git_commit: String::new(),
            profile: String::new(),
            debug: String::new(),
            opt_level: String::new(),
            debug_assertions: String::new(),
            target_arch: String::new(),
            target_feature: String::new(),
            rustflags: String::new(),
            sgx_mode: String::new(),
            ias_mode: String::new(),
        }
    }

    /// Sets `git_commit` and leaves the other items as they are.
    pub fn set_git_commit(&mut self, value: String)
        ensures
            *final(self) == (BuildInfo { git_commit: value, ..*old(self) }),
    {
        self.git_commit = value;
    }

    /// Sets `profile` and leaves the other items as they are.
    pub fn set_profile(&mut self, value: String)
        ensures
            *final(self) == (BuildInfo { profile: value, ..*old(self) }),
    {
        self.profile = value;
    }

    /// Sets `debug` and leaves the other items as they are.
    pub fn set_debug(&mut self, value: String)
        ensures
            *final(self) == (BuildInfo { debug: value, ..*old(self) }),
    {
        self.debug = value;
    }

    /// Sets `opt_level` and leaves the other items as they are.
    pub fn set_opt_level(&mut self, value: String)
        ensures
            *final(self) == (BuildInfo { opt_level: value, ..*old(self) }),
    {
        self.opt_level = value;
    }

    /// Sets `debug_assertions` and leaves the other items as they are.
    pub fn set_debug_assertions(&mut self, value: String)
        ensures
            *final(self) == (BuildInfo { debug_assertions: value, ..*old(self) }),
    {
        self.debug_assertions = value;
    }

    /// Sets `target_arch` and leaves the other items as they are.
    pub fn set_target_arch(&mut self, value: String)
        ensures
            *final(self) == (BuildInfo { target_arch: value, ..*old(self) }),
    {
        self.target_arch = value;
    }

    /// Sets `target_feature` and leaves the other items as they are.
    pub fn set_target_feature(&mut self, value: String)
        ensures
            *final(self) == (BuildInfo { target_feature: value, ..*old(self) }),
    {
        self.target_feature = value;
    }

    /// Sets `rustflags` and leaves the other items as they are.
    pub fn set_rustflags(&mut self, value: String)
        ensures
            *final(self) == (BuildInfo { rustflags: value, ..*old(self) }),
    {
        self.rustflags = value;
    }

    /// Sets `sgx_mode` and leaves the other items as they are.
    pub fn set_sgx_mode(&mut self, value: String)
        ensures
            *final(self) == (BuildInfo { sgx_mode: value, ..*old(self) }),
    {
        self.sgx_mode = value;
    }

    /// Sets `ias_mode` and leaves the other items as they are.
    pub fn set_ias_mode(&mut self, value: String)
        ensures
            *final(self) == (BuildInfo { ias_mode: value, ..*old(self) }),
    {
        self.ias_mode = value;
    }
}

/// The build metadata record made of the ten items as the build recorded
/// them: each item of the record holds the text given for it.
pub fn get_build_info(
    git_commit: &str,
    profile: &str,
    debug: &str,
    opt_level: &str,
    debug_assertions: &str,
    target_arch: &str,
    target_feature: &str,
    rustflags: &str,
    sgx_mode: &str,
    ias_mode: &str,
) -> (build_info: BuildInfo)
    ensures
        build_info.git_commit@ == git_commit@,
        build_info.profile@ == profile@,
        build_info.debug@ == debug@,
        build_info.opt_level@ == opt_level@,
        build_info.debug_assertions@ == debug_assertions@,
        build_info.target_arch@ == target_arch@,
        build_info.target_feature@ == target_feature@,
        build_info.rustflags@ == rustflags@,
        build_info.sgx_mode@ == sgx_mode@,
        build_info.ias_mode@ == ias_mode@,
{
    let mut build_info = BuildInfo::new();
    build_info.set_git_commit(git_commit.to_owned());
    build_info.set_profile(profile.to_owned());
    build_info.set_debug(debug.to_owned());
    build_info.set_opt_level(opt_level.to_owned());
    build_info.set_debug_assertions(debug_assertions.to_owned());
    build_info.set_target_arch(target_arch.to_owned());
    build_info.set_target_feature(target_feature.to_owned());
    build_info.set_rustflags(rustflags.to_owned());
    build_info.set_sgx_mode(sgx_mode.to_owned());
    build_info.set_ias_mode(ias_mode.to_owned());
    build_info
}

} // verus!
