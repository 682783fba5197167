//! The build and deployment environments a project is worked on in.
use crate::text::{lower_of, lowercase, str_equal};
use vstd::prelude::*;

verus! {

/// The directory of a project that holds its contracts.
pub const CONTRACTS_DIR: &'static str = "contracts";

/// The directory of a project that holds its migration history.
pub const MIGRATIONS_DIR: &'static str = "migrations";

/// The project's configuration file.
pub const CONFIG_FILE: &'static str = "capsule.toml";

/// How contracts are built.
#[derive(Clone, Copy, Debug, PartialEq, Eq, Structural)]
pub enum BuildEnv {
    Debug,
    Release,
}

/// The build environment that a lower-case name stands for.
pub open spec fn build_env_of(l: Seq<char>) -> Option<BuildEnv> {
    if l == "debug"@ {
        Some(BuildEnv::Debug)
    } else if l == "release"@ {
        Some(BuildEnv::Release)
    } else {
        None
    }
}

impl BuildEnv {
    /// The build environment named by `l`, already in lower case.
    pub fn from_lowercase(l: &str) -> (r: Option<BuildEnv>)
        ensures
            r == build_env_of(l@),
    {
        if str_equal(l, "debug") {
            Some(BuildEnv::Debug)
        } else if str_equal(l, "release") {
            Some(BuildEnv::Release)
        } else {
            None
        }
    }

    /// The build environment named by `s`, in any case.
    pub fn from_str(s: &str) -> (r: Result<BuildEnv, String>)
        ensures
            r is Ok <==> build_env_of(lower_of(s@)) is Some,
            r is Ok ==> r->Ok_0 == build_env_of(lower_of(s@))->0,
    {
        let l = lowercase(s);
        match BuildEnv::from_lowercase(l.as_str()) {
            Some(e) => Ok(e),
            None => Err(String::from_str("no match")),
        }
    }
}

/// How a contract is built.
#[derive(Clone, Copy, Debug, PartialEq, Eq, Structural)]
pub struct BuildConfig {
    pub build_env: BuildEnv,
    pub always_debug: bool,
}

/// Where contracts are deployed.
#[derive(Clone, Copy, Debug, PartialEq, Eq, Structural)]
pub enum DeployEnv {
    Dev,
    Production,
}

/// The deployment environment that a lower-case name stands for.
pub open spec fn deploy_env_of(l: Seq<char>) -> Option<DeployEnv> {
    if l == "dev"@ {
        Some(DeployEnv::Dev)
    } else if l == "production"@ {
        Some(DeployEnv::Production)
    } else {
        None
    }
}

impl DeployEnv {
    /// The deployment environment named by `l`, already in lower case.
    pub fn from_lowercase(l: &str) -> (r: Option<DeployEnv>)
        ensures
            r == deploy_env_of(l@),
    {
        if str_equal(l, "dev") {
            Some(DeployEnv::Dev)
        } else if str_equal(l, "production") {
            Some(DeployEnv::Production)
        } else {
            None
        }
    }

    /// The deployment environment named by `s`, in any case.
    pub fn from_str(s: &str) -> (r: Result<DeployEnv, String>)
        ensures
            r is Ok <==> deploy_env_of(lower_of(s@)) is Some,
            r is Ok ==> r->Ok_0 == deploy_env_of(lower_of(s@))->0,
    {
        let l = lowercase(s);
        match DeployEnv::from_lowercase(l.as_str()) {
            Some(e) => Ok(e),
            None => Err(String::from_str("no match")),
        }
    }

    /// The directory, under the migrations directory, of this environment's history.
    pub fn dir_name(&self) -> (r: &'static str)
        ensures
            r@ == (match self {
                DeployEnv::Dev => "dev"@,
                DeployEnv::Production => "production"@,
            }),
    {
        match self {
            DeployEnv::Dev => "dev",
            DeployEnv::Production => "production",
        }
    }
}

impl std::str::FromStr for BuildEnv {
    type Err = String;

    fn from_str(s: &str) -> Result<BuildEnv, String> {
        BuildEnv::from_str(s)
    }
}

impl std::str::FromStr for DeployEnv {
    type Err = String;

    fn from_str(s: &str) -> Result<DeployEnv, String> {
        DeployEnv::from_str(s)
    }
}

} // verus!
