//! Versions of this tool, as printed by `--version`, and which of them can
//! work on a project made by another.
use crate::text::{decimal_value, parse_decimal, split_ascii_ws, split_char, split_spec, string_views, ws_tokens};
use vstd::prelude::*;

verus! {

/// A version: `major.minor.patch`, an optional pre-release tag and a commit id.
#[derive(Clone, Debug, PartialEq, Eq)]
pub struct Version {
    pub major: u8,
    pub minor: u8,
    pub patch: u16,
    pub commit_id: String,
    pub pre: String,
}

pub ghost struct VersionModel {
    pub major: u8,
    pub minor: u8,
    pub patch: u16,
    pub commit_id: Seq<char>,
    pub pre: Seq<char>,
}

impl View for Version {
    type V = VersionModel;

    open spec fn view(&self) -> VersionModel {
        VersionModel { major: self.major, minor: self.minor, patch: self.patch, commit_id: self.commit_id@, pre: self.pre@ }
    }
}

/// The version that `s` writes: `major.minor.patch`, optionally followed by
/// `-pre`, optionally followed by white space and a commit id.
pub open spec fn version_of(s: Seq<char>) -> Option<VersionModel> {
    let words = ws_tokens(s);
    let tags = split_spec(words[0], '-');
    let nums = split_spec(tags[0], '.');
    if words.len() < 1 || words.len() > 2 || tags.len() > 2 || nums.len() != 3 {
        None
    } else {
        match (decimal_value(nums[0]), decimal_value(nums[1]), decimal_value(nums[2])) {
            (Some(a), Some(b), Some(c)) => if a <= u8::MAX && b <= u8::MAX && c <= u16::MAX {
                Some(VersionModel {
                    major: a as u8,
                    minor: b as u8,
                    patch: c as u16,
                    commit_id: if words.len() == 2 { words[1] } else { Seq::empty() },
                    pre: if tags.len() == 2 { tags[1] } else { Seq::empty() },
                })
            } else {
                None
            },
            _ => None,
        }
    }
}

/// A tool at version `a` can work on a project made at version `b`: before
/// 1.0 the minor versions must match and `a`'s patch be no older; from 1.0
/// on the major versions must match and `a` be no older.
pub open spec fn compatible(a: VersionModel, b: VersionModel) -> bool {
    if a.major == 0 {
        b.major == 0 && a.minor == b.minor && a.patch >= b.patch
    } else {
        a.major == b.major && (a.minor > b.minor || (a.minor == b.minor && a.patch >= b.patch))
    }
}

impl Version {
    /// The version that `s` writes.
    pub fn from_str(s: &str) -> (r: Result<Version, String>)
        ensures
            r is Ok <==> version_of(s@) is Some,
            r is Ok ==> r->Ok_0@ == version_of(s@)->0,
    {
        let words = split_ascii_ws(s);
        if words.len() < 1 || words.len() > 2 {
            return Err(String::from_str("unexpected parts after splitting on white space"));
        }
        let tags = split_char(words[0].as_str(), '-');
        proof {
            crate::text::lemma_split_nonempty(words@[0]@, '-');
        }
        if tags.len() > 2 {
            return Err(String::from_str("unexpected parts after splitting on '-'"));
        }
        let nums = split_char(tags[0].as_str(), '.');
        proof {
            crate::text::lemma_split_nonempty(tags@[0]@, '.');
        }
        if nums.len() != 3 {
            return Err(String::from_str("unexpected parts after splitting on '.'"));
        }
        let a = parse_decimal(nums[0].as_str(), 255);
        let b = parse_decimal(nums[1].as_str(), 255);
        let c = parse_decimal(nums[2].as_str(), 65535);
        match (a, b, c) {
            (Some(a), Some(b), Some(c)) => {
                let commit_id = if words.len() == 2 { words[1].clone() } else { String::new() };
                let pre = if tags.len() == 2 { tags[1].clone() } else { String::new() };
                Ok(Version { major: a as u8, minor: b as u8, patch: c as u16, commit_id, pre })
            },
            _ => Err(String::from_str("invalid version number")),
        }
    }

    /// Whether a tool at this version can work on a project made at `version`.
    pub fn is_compatible(&self, version: &Version) -> (r: bool)
        ensures
            r == compatible(self@, version@),
    {
        if self.major == 0 {
            version.major == 0 && self.minor == version.minor && self.patch >= version.patch
        } else {
            self.major == version.major && (self.minor > version.minor || (self.minor == version.minor
                && self.patch >= version.patch))
        }
    }

    /// `major.minor.patch`, then `-pre` where there is a tag, then a space and
    /// the commit id where there is one.
    pub fn to_string(&self) -> (r: String)
        ensures
            r@ == crate::text::decimal(self.major as nat) + seq!['.'] + crate::text::decimal(self.minor as nat) + seq!['.']
                + crate::text::decimal(self.patch as nat) + (if self.pre@.len() > 0 { seq!['-'] + self.pre@ } else { Seq::empty() })
                + (if self.commit_id@.len() > 0 { seq![' '] + self.commit_id@ } else { Seq::empty() }),
    {
        let mut s = String::new();
        crate::text::push_padded(&mut s, self.major as u64, 0);
        s.push('.');
        crate::text::push_padded(&mut s, self.minor as u64, 0);
        s.push('.');
        crate::text::push_padded(&mut s, self.patch as u64, 0);
        if self.pre.unicode_len() > 0 {
            s.push('-');
            crate::text::push_str(&mut s, self.pre.as_str());
        }
        if self.commit_id.unicode_len() > 0 {
            s.push(' ');
            crate::text::push_str(&mut s, self.commit_id.as_str());
        }
        s
    }
}

impl std::str::FromStr for Version {
    type Err = String;

    fn from_str(s: &str) -> Result<Version, String> {
        Version::from_str(s)
    }
}

} // verus!
