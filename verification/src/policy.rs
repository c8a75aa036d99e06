//! The archive policy engine: which suites, components and architectures a
//! request may touch, which packages are denied, and the artifact size gate.

use vstd::prelude::*;
use vstd::string::*;
use crate::paths::{PathParser, DebianPath, PathType, SpecDebianPath, spec_parse_debian_path};
use crate::strutil::{contains_string, split_char, spec_split, ends_with, spec_ends_with, str_eq, u64_to_string, spec_dec_digits};

verus! {

/// Names of suites, components and architectures a request may touch.
#[derive(Debug, Clone)]
pub struct AllowPolicy {
    pub suites: Vec<String>,
    pub components: Vec<String>,
    pub architectures: Vec<String>,
}

/// Architectures and package names a request may never touch.
#[derive(Debug, Clone)]
pub struct DenyPolicy {
    pub architectures: Vec<String>,
    pub packages: Vec<String>,
}

/// Scalar limits on artifacts and request rates.
#[derive(Debug, Clone)]
pub struct LimitsPolicy {
    pub max_deb_size_mb: u64,
    pub max_request_rate_per_minute: u32,
}

/// The whole archive policy, as configuration carries it.
#[derive(Debug, Clone)]
pub struct PolicyConfig {
    pub allow: AllowPolicy,
    pub deny: DenyPolicy,
    pub limits: LimitsPolicy,
}

/// The mathematical image of a policy: five name sets and the limits.
pub ghost struct SpecPolicy {
    pub allowed_suites: Seq<Seq<char>>,
    pub allowed_components: Seq<Seq<char>>,
    pub allowed_architectures: Seq<Seq<char>>,
    pub denied_architectures: Seq<Seq<char>>,
    pub denied_packages: Seq<Seq<char>>,
    pub max_deb_size_mb: u64,
    pub max_request_rate_per_minute: u32,
}

impl View for PolicyConfig {
    type V = SpecPolicy;

    open spec fn view(&self) -> SpecPolicy {
        SpecPolicy {
            allowed_suites: self.allow.suites.deep_view(),
            allowed_components: self.allow.components.deep_view(),
            allowed_architectures: self.allow.architectures.deep_view(),
            denied_architectures: self.deny.architectures.deep_view(),
            denied_packages: self.deny.packages.deep_view(),
            max_deb_size_mb: self.limits.max_deb_size_mb,
            max_request_rate_per_minute: self.limits.max_request_rate_per_minute,
        }
    }
}

/// The stock policy: `bookworm` and `bullseye`; `main`, `contrib` and
/// `non-free`; the amd64 and arm64 architectures; `i386` denied; a 500 MB
/// artifact cap and 100 requests per minute.
pub open spec fn spec_default_policy() -> SpecPolicy {
    SpecPolicy {
        allowed_suites: seq!["bookworm"@, "bullseye"@],
        allowed_components: seq!["main"@, "contrib"@, "non-free"@],
        allowed_architectures: seq!["amd64"@, "arm64"@, "binary-amd64"@],
        denied_architectures: seq!["i386"@],
        denied_packages: Seq::<Seq<char>>::empty(),
        max_deb_size_mb: 500,
        max_request_rate_per_minute: 100,
    }
}

impl Default for PolicyConfig {
    /// The stock policy.
    fn default() -> (c: PolicyConfig)
        ensures
            c@ == spec_default_policy(),
    {
        let suites = vec![String::from_str("bookworm"), String::from_str("bullseye")];
        let components = vec![
            String::from_str("main"),
            String::from_str("contrib"),
            String::from_str("non-free"),
        ];
        let architectures = vec![
            String::from_str("amd64"),
            String::from_str("arm64"),
            String::from_str("binary-amd64"),
        ];
        let denied_architectures = vec![String::from_str("i386")];
        let c = PolicyConfig {
            allow: AllowPolicy { suites, components, architectures },
            deny: DenyPolicy { architectures: denied_architectures, packages: Vec::new() },
            limits: LimitsPolicy { max_deb_size_mb: 500, max_request_rate_per_minute: 100 },
        };
        proof {
            assert(c@.allowed_suites =~~= seq!["bookworm"@, "bullseye"@]);
            assert(c@.allowed_components =~~= seq!["main"@, "contrib"@, "non-free"@]);
            assert(c@.allowed_architectures =~~= seq!["amd64"@, "arm64"@, "binary-amd64"@]);
            assert(c@.denied_architectures =~~= seq!["i386"@]);
            assert(c@.denied_packages =~~= Seq::<Seq<char>>::empty());
            assert(c@ == spec_default_policy());
        }
        c
    }
}

/// The name before the first underscore of a `.deb` file name, if any.
pub open spec fn spec_package_name(filename: Seq<char>) -> Option<Seq<char>> {
    if spec_ends_with(filename, ".deb"@) {
        Some(spec_split(filename, '_')[0])
    } else {
        None
    }
}

/// What the release arm of the policy answers for a parsed path.
pub open spec fn spec_check_release(cfg: SpecPolicy, p: SpecDebianPath) -> Result<(), Seq<char>> {
    if !cfg.allowed_suites.contains(p.suite) {
        Err("Suite '"@ + p.suite + "' is not allowed"@)
    } else if p.component is Some && !cfg.allowed_components.contains(p.component->0) {
        Err("Component '"@ + p.component->0 + "' is not allowed"@)
    } else if p.architecture is Some && cfg.denied_architectures.contains(p.architecture->0) {
        Err("Architecture '"@ + p.architecture->0 + "' is explicitly denied"@)
    } else if p.architecture is Some && !cfg.allowed_architectures.contains(p.architecture->0) {
        Err("Architecture '"@ + p.architecture->0 + "' is not allowed"@)
    } else {
        Ok(())
    }
}

/// What the package arm of the policy answers for a parsed path.
pub open spec fn spec_check_package(cfg: SpecPolicy, p: SpecDebianPath) -> Result<(), Seq<char>> {
    if p.component is Some && !cfg.allowed_components.contains(p.component->0) {
        Err("Component '"@ + p.component->0 + "' is not allowed"@)
    } else if p.filename is Some && spec_package_name(p.filename->0) is Some
        && cfg.denied_packages.contains(spec_package_name(p.filename->0)->0) {
        Err("Package '"@ + spec_package_name(p.filename->0)->0 + "' is explicitly denied"@)
    } else {
        Ok(())
    }
}

/// What the policy answers for a raw request path.
pub open spec fn spec_check_path(cfg: SpecPolicy, path: Seq<char>) -> Result<(), Seq<char>> {
    match spec_parse_debian_path(path) {
        Err(e) => Err("Invalid Debian path: "@ + e),
        Ok(p) => if p.path_type == PathType::Release {
            spec_check_release(cfg, p)
        } else {
            spec_check_package(cfg, p)
        },
    }
}

/// The archive policy engine.  It answers, for a parsed path and a method,
/// whether the request is admissible, and names the violated rule when not.
pub struct PolicyEngine {
    config: PolicyConfig,
}

impl View for PolicyEngine {
    type V = SpecPolicy;

    closed spec fn view(&self) -> SpecPolicy {
        self.config@
    }
}

impl PolicyEngine {
    /// The engine over the stock policy.
    pub fn new() -> (e: PolicyEngine)
        ensures
            e@ == spec_default_policy(),
    {
        let config = PolicyConfig::default();
        Self::from_config(config)
    }

    /// The engine over a given policy.
    pub fn from_config(config: PolicyConfig) -> (e: PolicyEngine)
        ensures
            e@ == config@,
    {
        PolicyEngine { config }
    }

    /// The policy the engine runs.
    pub fn config(&self) -> (c: &PolicyConfig)
        ensures
            c@ == self@,
    {
        &self.config
    }

    /// A request is admissible when its method is GET or HEAD and its path
    /// passes the policy.
    pub fn check_request(&self, path: &str, method: &str) -> (r: bool)
        ensures
            r == (((method@ == "GET"@) || (method@ == "HEAD"@)) && spec_check_path(
                self@,
                path@,
            ) is Ok),
    {
        proof {
            reveal_strlit("GET");
            reveal_strlit("HEAD");
        }
        if !str_eq(method, "GET") && !str_eq(method, "HEAD") {
            return false;
        }
        self.check_path(path).is_ok()
    }

    /// Check a raw request path against the policy, naming the violated rule
    /// on rejection.
    pub fn check_path(&self, path: &str) -> (r: Result<(), String>)
        ensures
            r is Ok <==> spec_check_path(self@, path@) is Ok,
            r is Err ==> r->Err_0@ == spec_check_path(self@, path@)->Err_0,
    {
        match PathParser::parse_debian_path(path) {
            Err(e) => {
                proof {
                    reveal_strlit("Invalid Debian path: ");
                }
                let mut msg = String::from_str("Invalid Debian path: ");
                msg.append(e.as_str());
                Err(msg)
            },
            Ok(debian_path) => {
                match debian_path.path_type {
                    PathType::Release => self.check_release_policy(&debian_path),
                    PathType::Package => self.check_package_policy(&debian_path),
                }
            },
        }
    }

    /// The release arm: the suite must be allowed, and the component and
    /// architecture too where the path names them.
    pub fn check_release_policy(&self, path: &DebianPath) -> (r: Result<(), String>)
        ensures
            r is Ok <==> spec_check_release(self@, path@) is Ok,
            r is Err ==> r->Err_0@ == spec_check_release(self@, path@)->Err_0,
    {
        proof {
            reveal_strlit("Suite '");
            reveal_strlit("Component '");
            reveal_strlit("Architecture '");
            reveal_strlit("' is not allowed");
            reveal_strlit("' is explicitly denied");
        }
        if !contains_string(&self.config.allow.suites, path.suite.as_str()) {
            let mut msg = String::from_str("Suite '");
            msg.append(path.suite.as_str());
            msg.append("' is not allowed");
            return Err(msg);
        }
        if let Some(component) = &path.component {
            if !contains_string(&self.config.allow.components, component.as_str()) {
                let mut msg = String::from_str("Component '");
                msg.append(component.as_str());
                msg.append("' is not allowed");
                return Err(msg);
            }
        }
        if let Some(arch) = &path.architecture {
            if contains_string(&self.config.deny.architectures, arch.as_str()) {
                let mut msg = String::from_str("Architecture '");
                msg.append(arch.as_str());
                msg.append("' is explicitly denied");
                return Err(msg);
            }
            if !contains_string(&self.config.allow.architectures, arch.as_str()) {
                let mut msg = String::from_str("Architecture '");
                msg.append(arch.as_str());
                msg.append("' is not allowed");
                return Err(msg);
            }
        }
        Ok(())
    }

    /// The package arm: the component must be allowed where named, and a
    /// `.deb` file's package name must not be denied.
    pub fn check_package_policy(&self, path: &DebianPath) -> (r: Result<(), String>)
        ensures
            r is Ok <==> spec_check_package(self@, path@) is Ok,
            r is Err ==> r->Err_0@ == spec_check_package(self@, path@)->Err_0,
    {
        proof {
            reveal_strlit("Component '");
            reveal_strlit("Package '");
            reveal_strlit("' is not allowed");
            reveal_strlit("' is explicitly denied");
        }
        if let Some(component) = &path.component {
            if !contains_string(&self.config.allow.components, component.as_str()) {
                let mut msg = String::from_str("Component '");
                msg.append(component.as_str());
                msg.append("' is not allowed");
                return Err(msg);
            }
        }
        if let Some(filename) = &path.filename {
            if let Some(package_name) = Self::extract_package_name(filename.as_str()) {
                if contains_string(&self.config.deny.packages, package_name.as_str()) {
                    let mut msg = String::from_str("Package '");
                    msg.append(package_name.as_str());
                    msg.append("' is explicitly denied");
                    return Err(msg);
                }
            }
        }
        Ok(())
    }

    /// The package name of a `.deb` file name: what stands before the first
    /// underscore.
    pub fn extract_package_name(filename: &str) -> (r: Option<String>)
        ensures
            r.deep_view() == spec_package_name(filename@),
    {
        proof {
            reveal_strlit(".deb");
        }
        if ends_with(filename, ".deb") {
            let parts = split_char(filename, '_');
            proof {
                crate::strutil::lemma_split_len(filename@, '_');
                assert(parts.deep_view()[0] == spec_split(filename@, '_')[0]);
            }
            Some(parts[0].clone())
        } else {
            None
        }
    }

    /// The size gate: an artifact over `max_deb_size_mb` whole megabytes is
    /// rejected.
    pub fn check_file_size(&self, size_bytes: u64) -> (r: Result<(), String>)
        ensures
            r is Ok <==> size_bytes / 0x100000 <= self@.max_deb_size_mb,
            r is Err ==> r->Err_0@ == "File size "@ + spec_dec_digits(
                (size_bytes / 0x100000) as int,
            ) + "MB exceeds maximum allowed size "@ + spec_dec_digits(
                self@.max_deb_size_mb as int,
            ) + "MB"@,
    {
        let size_mb = size_bytes / (1024 * 1024);
        if size_mb > self.config.limits.max_deb_size_mb {
            proof {
                reveal_strlit("File size ");
                reveal_strlit("MB exceeds maximum allowed size ");
                reveal_strlit("MB");
            }
            let mut msg = String::from_str("File size ");
            msg.append(u64_to_string(size_mb).as_str());
            msg.append("MB exceeds maximum allowed size ");
            msg.append(u64_to_string(self.config.limits.max_deb_size_mb).as_str());
            msg.append("MB");
            return Err(msg);
        }
        Ok(())
    }
}

} // verus!
