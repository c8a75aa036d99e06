//! Decomposition of archive URL paths into their typed parts: release-index
//! paths under `dists/` and package-pool paths under `pool/`.

use vstd::prelude::*;
use vstd::string::*;
use crate::strutil::{spec_split, spec_starts_with, spec_ends_with, starts_with, split_char, ends_with};

verus! {

/// The two kinds of recognised archive paths.
#[derive(Debug, Clone, PartialEq, Eq, Structural)]
pub enum PathType {
    Release,
    Package,
}

/// A parsed archive path.
#[derive(Debug, Clone)]
pub struct DebianPath {
    pub path_type: PathType,
    pub suite: String,
    pub component: Option<String>,
    pub architecture: Option<String>,
    pub filename: Option<String>,
}

/// The mathematical image of a `DebianPath`.
pub ghost struct SpecDebianPath {
    pub path_type: PathType,
    pub suite: Seq<char>,
    pub component: Option<Seq<char>>,
    pub architecture: Option<Seq<char>>,
    pub filename: Option<Seq<char>>,
}

impl View for DebianPath {
    type V = SpecDebianPath;

    open spec fn view(&self) -> SpecDebianPath {
        SpecDebianPath {
            path_type: self.path_type,
            suite: self.suite@,
            component: self.component.deep_view(),
            architecture: self.architecture.deep_view(),
            filename: self.filename.deep_view(),
        }
    }
}

/// What parsing a `dists/...` remainder yields.
pub open spec fn spec_parse_release(rem: Seq<char>) -> Result<SpecDebianPath, Seq<char>> {
    let parts = spec_split(rem, '/');
    if parts.len() < 2 || parts[1].len() == 0 {
        Err("Invalid release path format"@)
    } else {
        let suite = parts[1];
        let fields = if parts.len() == 2 {
            (None::<Seq<char>>, None::<Seq<char>>, None::<Seq<char>>)
        } else if parts.len() == 3 {
            (None, None, Some(parts[2]))
        } else if parts.len() == 4 {
            (Some(parts[2]), None, Some(parts[3]))
        } else if parts.len() == 5 {
            if spec_ends_with(parts[4], "/"@) {
                (Some(parts[2]), Some(crate::strutil::spec_trim_end_char(parts[3], '/')), None)
            } else {
                (Some(parts[2]), Some(parts[3]), Some(parts[4]))
            }
        } else {
            (Some(parts[2]), Some(parts[4]), Some(parts.last()))
        };
        Ok(
            SpecDebianPath {
                path_type: PathType::Release,
                suite: suite,
                component: fields.0,
                architecture: fields.1,
                filename: fields.2,
            },
        )
    }
}

/// What parsing a `pool/...` remainder yields.
pub open spec fn spec_parse_package(rem: Seq<char>) -> Result<SpecDebianPath, Seq<char>> {
    let parts = spec_split(rem, '/').filter(|t: Seq<char>| t.len() > 0);
    if parts.len() < 4 {
        Err("Invalid package path format"@)
    } else {
        Ok(
            SpecDebianPath {
                path_type: PathType::Package,
                suite: Seq::<char>::empty(),
                component: Some(parts[1]),
                architecture: None,
                filename: Some(parts.last()),
            },
        )
    }
}

/// What parsing a full request path yields: the typed decomposition, or the
/// reason the path is not a recognised archive path.
pub open spec fn spec_parse_debian_path(p: Seq<char>) -> Result<SpecDebianPath, Seq<char>> {
    if !spec_starts_with(p, "/debian/"@) {
        Err("Invalid Debian path"@)
    } else {
        let rem = p.subrange(8, p.len() as int);
        if spec_starts_with(rem, "dists/"@) {
            spec_parse_release(rem)
        } else if spec_starts_with(rem, "pool/"@) {
            spec_parse_package(rem)
        } else {
            Err("Unknown Debian path type"@)
        }
    }
}

/// Whether an executable parse result and its specification agree.
pub open spec fn parse_result_matches(
    r: Result<DebianPath, String>,
    sp: Result<SpecDebianPath, Seq<char>>,
) -> bool {
    match r {
        Ok(d) => sp is Ok && d@ == sp->Ok_0,
        Err(e) => sp is Err && e@ == sp->Err_0,
    }
}

pub struct PathParser;

impl PathParser {
    /// Parse a request path into its typed archive decomposition.
    pub fn parse_debian_path(path: &str) -> (r: Result<DebianPath, String>)
        ensures
            parse_result_matches(r, spec_parse_debian_path(path@)),
    {
        proof {
            reveal_strlit("/debian/");
        }
        if !starts_with(path, "/debian/") {
            return Err(String::from_str("Invalid Debian path"));
        }
        let len = path.unicode_len();
        let remaining = path.substring_char(8, len);
        proof {
            reveal_strlit("dists/");
            reveal_strlit("pool/");
        }
        if starts_with(remaining, "dists/") {
            Self::parse_release_path(remaining)
        } else if starts_with(remaining, "pool/") {
            Self::parse_package_path(remaining)
        } else {
            Err(String::from_str("Unknown Debian path type"))
        }
    }

    /// Parse the remainder of a `dists/` path.
    pub fn parse_release_path(path: &str) -> (r: Result<DebianPath, String>)
        ensures
            parse_result_matches(r, spec_parse_release(path@)),
    {
        let parts = split_char(path, '/');
        if parts.len() < 2 {
            return Err(String::from_str("Invalid release path format"));
        }
        let ghost sparts = spec_split(path@, '/');
        proof {
            assert(sparts[1] == parts.deep_view()[1]);
        }
        if parts[1].as_str().unicode_len() == 0 {
            return Err(String::from_str("Invalid release path format"));
        }
        let suite = parts[1].clone();

        let n = parts.len();
        let (component, architecture, filename): (Option<String>, Option<String>, Option<String>) =
            if n == 2 {
            (None, None, None)
        } else if n == 3 {
            (None, None, Some(parts[2].clone()))
        } else if n == 4 {
            (Some(parts[2].clone()), None, Some(parts[3].clone()))
        } else if n == 5 {
            proof {
                reveal_strlit("/");
            }
            if ends_with(parts[4].as_str(), "/") {
                (
                    Some(parts[2].clone()),
                    Some(crate::strutil::trim_end_char(parts[3].as_str(), '/')),
                    None,
                )
            } else {
                (Some(parts[2].clone()), Some(parts[3].clone()), Some(parts[4].clone()))
            }
        } else {
            (Some(parts[2].clone()), Some(parts[4].clone()), Some(parts[n - 1].clone()))
        };

        Ok(
            DebianPath {
                path_type: PathType::Release,
                suite,
                component,
                architecture,
                filename,
            },
        )
    }

    /// Parse the remainder of a `pool/` path.
    pub fn parse_package_path(path: &str) -> (r: Result<DebianPath, String>)
        ensures
            parse_result_matches(r, spec_parse_package(path@)),
    {
        let raw = split_char(path, '/');
        let ghost sraw = spec_split(path@, '/');
        let mut parts: Vec<String> = Vec::new();
        let n = raw.len();
        let mut i: usize = 0;
        proof {
            reveal(Seq::filter);
        }
        while i < n
            invariant
                i <= n,
                n == raw.len(),
                sraw == raw.deep_view(),
                parts.deep_view() =~~= sraw.take(i as int).filter(|t: Seq<char>| t.len() > 0),
            decreases n - i,
        {
            proof {
                reveal(Seq::filter);
                assert(sraw.take(i + 1).drop_last() =~= sraw.take(i as int));
                assert(sraw.take(i + 1).last() == sraw[i as int]);
            }
            let piece = &raw[i];
            if piece.as_str().unicode_len() > 0 {
                parts.push(piece.clone());
            }
            i = i + 1;
        }
        proof {
            assert(sraw.take(n as int) =~= sraw);
        }
        if parts.len() < 4 {
            return Err(String::from_str("Invalid package path format"));
        }
        let component = Some(parts[1].clone());
        let filename = Some(parts[parts.len() - 1].clone());
        Ok(
            DebianPath {
                path_type: PathType::Package,
                suite: String::new(),
                component,
                architecture: None,
                filename,
            },
        )
    }
}

/// Law: a successful `pool` parse is well-formed — it always carries a
/// component and a filename.
pub proof fn lemma_parse_package_well_formed(p: Seq<char>)
    requires
        spec_parse_debian_path(p) is Ok,
        spec_parse_debian_path(p)->Ok_0.path_type == PathType::Package,
    ensures
        spec_parse_debian_path(p)->Ok_0.component is Some,
        spec_parse_debian_path(p)->Ok_0.filename is Some,
        spec_parse_debian_path(p)->Ok_0.suite == Seq::<char>::empty(),
{
}

/// Law: a successful `dists` parse always carries a nonempty suite — an
/// empty suite segment, as in `/debian/dists//InRelease`, is rejected.
pub proof fn lemma_parse_release_suite_nonempty(p: Seq<char>)
    requires
        spec_parse_debian_path(p) is Ok,
        spec_parse_debian_path(p)->Ok_0.path_type == PathType::Release,
    ensures
        spec_parse_debian_path(p)->Ok_0.suite.len() > 0,
{
}

} // verus!
