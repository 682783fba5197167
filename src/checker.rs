//! Which of the tools a project needs are installed, and whether the ledger
//! client is recent enough to deploy with.
use crate::text::{decimal_value, parse_decimal, split_ascii_ws, split_char, split_spec, ws_tokens};
use vstd::prelude::*;

verus! {

/// A release of an installed tool: major, minor and patch.
#[derive(Clone, Copy, Debug, PartialEq, Eq, Structural)]
pub struct Version(pub usize, pub usize, pub usize);

/// The oldest ledger client that deployment works with.
pub open spec fn required_ckb_cli() -> Version {
    Version(1, 2, 0)
}

/// The oldest ledger client that deployment works with.
pub fn required_ckb_cli_version() -> (r: Version)
    ensures
        r == required_ckb_cli(),
{
    Version(1, 2, 0)
}

/// `a` is no older than `b`.
pub open spec fn at_least(a: Version, b: Version) -> bool {
    a.0 > b.0 || (a.0 == b.0 && (a.1 > b.1 || (a.1 == b.1 && a.2 >= b.2)))
}

/// `s` without any repetition of `p` in front.
pub open spec fn strip_prefixes(s: Seq<char>, p: Seq<char>) -> Seq<char>
    decreases s.len(),
{
    if p.len() > 0 && p.len() <= s.len() && s.subrange(0, p.len() as int) == p {
        strip_prefixes(s.subrange(p.len() as int, s.len() as int), p)
    } else {
        s
    }
}

/// The release that a tool printed as `out`, after `prefix`: the first word
/// of what follows, made of exactly three decimal numbers joined by points.
pub open spec fn release_of(prefix: Seq<char>, out: Seq<char>) -> Option<Version> {
    let words = ws_tokens(strip_prefixes(out, prefix));
    if words.len() == 0 {
        None
    } else {
        let nums = split_spec(words[0], '.');
        if nums.len() != 3 {
            None
        } else {
            match (decimal_value(nums[0]), decimal_value(nums[1]), decimal_value(nums[2])) {
                (Some(a), Some(b), Some(c)) => if a <= usize::MAX && b <= usize::MAX && c <= usize::MAX {
                    Some(Version(a as usize, b as usize, c as usize))
                } else {
                    None
                },
                _ => None,
            }
        }
    }
}

fn starts_with(s: &str, p: &str) -> (r: bool)
    ensures
        r == (p@.len() <= s@.len() && s@.subrange(0, p@.len() as int) == p@),
{
    let n = s.unicode_len();
    let m = p.unicode_len();
    if m > n {
        return false;
    }
    let mut i: usize = 0;
    while i < m
        invariant
            i <= m <= n,
            n == s@.len(),
            m == p@.len(),
            s@.subrange(0, i as int) == p@.subrange(0, i as int),
        decreases m - i,
    {
        if s.get_char(i) != p.get_char(i) {
            assert(s@.subrange(0, m as int)[i as int] != p@[i as int]);
            return false;
        }
        assert(s@.subrange(0, i as int + 1) == s@.subrange(0, i as int).push(s@[i as int]));
        assert(p@.subrange(0, i as int + 1) == p@.subrange(0, i as int).push(p@[i as int]));
        i = i + 1;
    }
    assert(p@.subrange(0, m as int) == p@);
    true
}

impl Version {
    /// The release that a tool printed as `out`, after `prefix`.
    pub fn parse_with_prefix(prefix: &str, out: &str) -> (r: Option<Version>)
        ensures
            r == release_of(prefix@, out@),
    {
        let mut rest: &str = out;
        let plen = prefix.unicode_len();
        if plen > 0 {
            while starts_with(rest, prefix)
                invariant
                    plen == prefix@.len(),
                    plen > 0,
                    strip_prefixes(rest@, prefix@) == strip_prefixes(out@, prefix@),
                decreases rest@.len(),
            {
                let n = rest.unicode_len();
                rest = rest.substring_char(plen, n);
            }
        }
        let words = split_ascii_ws(rest);
        if words.len() == 0 {
            return None;
        }
        let nums = split_char(words[0].as_str(), '.');
        if nums.len() != 3 {
            return None;
        }
        let a = parse_decimal(nums[0].as_str(), usize::MAX as u64);
        let b = parse_decimal(nums[1].as_str(), usize::MAX as u64);
        let c = parse_decimal(nums[2].as_str(), usize::MAX as u64);
        match (a, b, c) {
            (Some(a), Some(b), Some(c)) => Some(Version(a as usize, b as usize, c as usize)),
            _ => None,
        }
    }
}

/// What running a tool with its version flag gave: whether it ran
/// successfully, and what it printed.
#[derive(Clone, Debug)]
pub struct ProbeOutput {
    pub success: bool,
    pub stdout: String,
}

/// A tool a project needs.
#[derive(Clone, Debug)]
pub struct BinDep {
    pub program: String,
    pub installed: bool,
    pub version: Option<Version>,
    pub required_version: Option<Version>,
}

impl BinDep {
    /// The state of `program` from what running it gave. Its release is read
    /// only where it ran and a prefix to read it after is given.
    pub fn build(
        program: &str,
        probe: &ProbeOutput,
        version_prefix: Option<&str>,
        required_version: Option<Version>,
    ) -> (r: BinDep)
        ensures
            r.program@ == program@,
            r.installed == probe.success,
            r.version == (match version_prefix {
                Some(p) => if probe.success { release_of(p@, probe.stdout@) } else { None },
                None => None,
            }),
            r.required_version == required_version,
    {
        let version = match version_prefix {
            Some(p) => if probe.success { Version::parse_with_prefix(p, probe.stdout.as_str()) } else { None },
            None => None,
        };
        BinDep { program: program.to_owned(), installed: probe.success, version, required_version }
    }

    /// Whether the installed release is no older than the required one; true
    /// where none is required or the release is unknown.
    pub fn meet_required_version(&self) -> (r: bool)
        ensures
            r == match (self.required_version, self.version) {
                (Some(req), Some(v)) => at_least(v, req),
                _ => true,
            },
    {
        match (self.required_version, self.version) {
            (Some(req), Some(v)) => v.0 > req.0 || (v.0 == req.0 && (v.1 > req.1 || (v.1 == req.1 && v.2 >= req.2))),
            _ => true,
        }
    }
}

/// Why the ledger client cannot be used to deploy.
#[derive(Clone, Copy, Debug, PartialEq, Eq, Structural)]
pub enum CheckError {
    /// It is not installed.
    NotFound,
    /// Its release is older than required; `None` where it is unknown.
    TooOld(Option<Version>),
}

/// The tools a project needs.
#[derive(Clone, Debug)]
pub struct Checker {
    pub cargo: BinDep,
    pub docker: BinDep,
    pub cross: BinDep,
    pub ckb_cli: BinDep,
}

impl Checker {
    /// The state of each tool, from what running each with its version flag
    /// gave. Only the ledger client's release is read, and required.
    pub fn build(
        ckb_cli_bin: &str,
        cargo: &ProbeOutput,
        docker: &ProbeOutput,
        cross: &ProbeOutput,
        ckb_cli: &ProbeOutput,
    ) -> (r: Checker)
        ensures
            r.cargo.installed == cargo.success && r.cargo.version is None && r.cargo.required_version is None,
            r.docker.installed == docker.success && r.docker.version is None && r.docker.required_version is None,
            r.cross.installed == cross.success && r.cross.version is None && r.cross.required_version is None,
            r.ckb_cli.program@ == ckb_cli_bin@,
            r.ckb_cli.installed == ckb_cli.success,
            r.ckb_cli.version == (if ckb_cli.success { release_of("ckb-cli"@, ckb_cli.stdout@) } else { None }),
            r.ckb_cli.required_version == Some(required_ckb_cli()),
    {
        Checker {
            cargo: BinDep::build("cargo", cargo, None, None),
            docker: BinDep::build("docker", docker, None, None),
            cross: BinDep::build("cross-util", cross, None, None),
            ckb_cli: BinDep::build(ckb_cli_bin, ckb_cli, Some("ckb-cli"), Some(required_ckb_cli_version())),
        }
    }

    /// Fails where the ledger client is missing or older than required.
    pub fn check_ckb_cli(&self) -> (r: Result<(), CheckError>)
        ensures
            !self.ckb_cli.installed ==> r == Err::<(), CheckError>(CheckError::NotFound),
            self.ckb_cli.installed ==> (r is Ok <==> match (self.ckb_cli.required_version, self.ckb_cli.version) {
                (Some(req), Some(v)) => at_least(v, req),
                _ => true,
            }),
            self.ckb_cli.installed && r is Err ==> r == Err::<(), CheckError>(CheckError::TooOld(self.ckb_cli.version)),
    {
        if !self.ckb_cli.installed {
            return Err(CheckError::NotFound);
        }
        if !self.ckb_cli.meet_required_version() {
            return Err(CheckError::TooOld(self.ckb_cli.version));
        }
        Ok(())
    }
}

} // verus!
