//! Which tools a test run needs, in which versions, and whether the
//! script library of a package goes with this version of the tool.

use crate::text::{decimal_digits, push_decimal, str_eq};
use vstd::prelude::*;
use vstd::string::{StrSliceExecFns, StringExecFns};

verus! {

/// A released version: three numbers.
#[derive(Clone, Copy, Debug, PartialEq, Eq, Structural)]
pub struct Release {
    pub major: u64,
    pub minor: u64,
    pub patch: u64,
}

/// A version of a tool or a package: a release, or a pre-release of it
/// where `pre` is not empty.
#[derive(Debug, PartialEq, Eq)]
pub struct Version {
    pub major: u64,
    pub minor: u64,
    pub patch: u64,
    pub pre: String,
}

/// Whether the numbers `a` come before the numbers `b`.
pub open spec fn release_lt(a: Release, b: Release) -> bool {
    a.major < b.major || (a.major == b.major && (a.minor < b.minor || (a.minor == b.minor
        && a.patch < b.patch)))
}

impl Version {
    /// The three numbers of the version.
    pub open spec fn release(&self) -> Release {
        Release { major: self.major, minor: self.minor, patch: self.patch }
    }

    /// Whether the version comes before a release: its numbers do, or they
    /// are those of the release and the version is a pre-release of it.
    pub open spec fn precedes(&self, release: Release) -> bool {
        release_lt(self.release(), release) || (self.release() == release && self.pre@.len() > 0)
    }

    /// Whether the version comes before a release.
    pub fn is_before(&self, release: Release) -> (before: bool)
        ensures
            before == self.precedes(release),
    {
        if self.major != release.major {
            self.major < release.major
        } else if self.minor != release.minor {
            self.minor < release.minor
        } else if self.patch != release.patch {
            self.patch < release.patch
        } else {
            self.pre.as_str().unicode_len() > 0
        }
    }
}

/// What the tests count as the cost of a run.
#[derive(Clone, Copy, Debug, PartialEq, Eq, Structural)]
pub enum ForgeTrackedResource {
    CairoSteps,
    SierraGas,
}

/// A tool that a test run needs.
#[derive(Clone, Copy, Debug, PartialEq, Eq, Structural)]
pub enum Tool {
    Scarb,
    UniversalSierraCompiler,
    Rust,
}

/// What is asked of a tool.
#[derive(Debug, PartialEq, Eq)]
pub struct Requirement {
    pub tool: Tool,
    /// The tool's name as the user reads it.
    pub name: String,
    pub minimal_version: Release,
    pub minimal_recommended_version: Option<Release>,
    /// What the user is told where the tool is missing or too old.
    pub helper_text: String,
    /// The pattern that finds the version in what the tool prints.
    pub version_pattern: String,
}

/// The first Scarb that the tests run with.
pub open spec fn minimal_scarb() -> Release {
    Release { major: 2, minor: 9, patch: 1 }
}

/// The first Scarb that is recommended.
pub open spec fn minimal_recommended_scarb() -> Release {
    Release { major: 2, minor: 9, patch: 4 }
}

/// The first Scarb that brings the compiler plugin built, and the first
/// that counts Sierra gas.
pub open spec fn scarb_with_prebuilt_plugin() -> Release {
    Release { major: 2, minor: 10, patch: 0 }
}

/// The first Universal Sierra Compiler that the tests run with.
pub open spec fn minimal_usc() -> Release {
    Release { major: 2, minor: 0, patch: 0 }
}

/// The first Rust that builds the compiler plugin.
pub open spec fn minimal_rust() -> Release {
    Release { major: 1, minor: 80, patch: 1 }
}

/// What is asked of a tool, as a mathematical value.
pub struct RequirementView {
    pub tool: Tool,
    pub name: Seq<char>,
    pub minimal_version: Release,
    pub minimal_recommended_version: Option<Release>,
    pub helper_text: Seq<char>,
    pub version_pattern: Seq<char>,
}

impl View for Requirement {
    type V = RequirementView;

    open spec fn view(&self) -> RequirementView {
        RequirementView {
            tool: self.tool,
            name: self.name@,
            minimal_version: self.minimal_version,
            minimal_recommended_version: self.minimal_recommended_version,
            helper_text: self.helper_text@,
            version_pattern: self.version_pattern@,
        }
    }
}

/// What is asked of Scarb: more where the tests count Sierra gas.
pub open spec fn scarb_requirement_view(resource: ForgeTrackedResource) -> RequirementView {
    match resource {
        ForgeTrackedResource::CairoSteps => RequirementView {
            tool: Tool::Scarb,
            name: "Scarb"@,
            minimal_version: minimal_scarb(),
            minimal_recommended_version: Some(minimal_recommended_scarb()),
            helper_text: "Follow instructions from https://docs.swmansion.com/scarb/download.html"@,
            version_pattern: "scarb (?<version>[0-9]+.[0-9]+.[0-9]+)"@,
        },
        ForgeTrackedResource::SierraGas => RequirementView {
            tool: Tool::Scarb,
            name: "Scarb"@,
            minimal_version: scarb_with_prebuilt_plugin(),
            minimal_recommended_version: None,
            helper_text: "To track sierra gas, minimal required scarb version is 2.10.0 (it comes with sierra >= 1.7.0 support)\nFollow instructions from https://docs.swmansion.com/scarb/download.html"@,
            version_pattern: "scarb (?<version>[0-9]+.[0-9]+.[0-9]+)"@,
        },
    }
}

/// What is asked of the Universal Sierra Compiler.
pub open spec fn usc_requirement_view() -> RequirementView {
    RequirementView {
        tool: Tool::UniversalSierraCompiler,
        name: "Universal Sierra Compiler"@,
        minimal_version: minimal_usc(),
        minimal_recommended_version: None,
        helper_text: "Reinstall `snforge` using the same installation method or follow instructions from https://foundry-rs.github.io/starknet-foundry/getting-started/installation.html#universal-sierra-compiler-update"@,
        version_pattern: "universal-sierra-compiler (?<version>[0-9]+.[0-9]+.[0-9]+)"@,
    }
}

/// What is asked of Rust, where it is needed.
pub open spec fn rust_requirement_view() -> RequirementView {
    RequirementView {
        tool: Tool::Rust,
        name: "Rust"@,
        minimal_version: minimal_rust(),
        minimal_recommended_version: None,
        helper_text: "Follow instructions from https://www.rust-lang.org/tools/install"@,
        version_pattern: "rustc (?<version>[0-9]+.[0-9]+.[0-9]+)"@,
    }
}

/// What is asked of Scarb: more where the tests count Sierra gas.
pub fn scarb_requirement(resource: ForgeTrackedResource) -> (requirement: Requirement)
    ensures
        requirement@ == scarb_requirement_view(resource),
{
    match resource {
        ForgeTrackedResource::CairoSteps => Requirement {
            tool: Tool::Scarb,
            name: String::from_str("Scarb"),
            minimal_version: Release { major: 2, minor: 9, patch: 1 },
            minimal_recommended_version: Some(Release { major: 2, minor: 9, patch: 4 }),
            helper_text: String::from_str(
                "Follow instructions from https://docs.swmansion.com/scarb/download.html",
            ),
            version_pattern: String::from_str("scarb (?<version>[0-9]+.[0-9]+.[0-9]+)"),
        },
        ForgeTrackedResource::SierraGas => Requirement {
            tool: Tool::Scarb,
            name: String::from_str("Scarb"),
            minimal_version: Release { major: 2, minor: 10, patch: 0 },
            minimal_recommended_version: None,
            helper_text: String::from_str(
                "To track sierra gas, minimal required scarb version is 2.10.0 (it comes with sierra >= 1.7.0 support)\nFollow instructions from https://docs.swmansion.com/scarb/download.html",
            ),
            version_pattern: String::from_str("scarb (?<version>[0-9]+.[0-9]+.[0-9]+)"),
        },
    }
}

/// What is asked of the Universal Sierra Compiler.
pub fn usc_requirement() -> (requirement: Requirement)
    ensures
        requirement@ == usc_requirement_view(),
{
    Requirement {
        tool: Tool::UniversalSierraCompiler,
        name: String::from_str("Universal Sierra Compiler"),
        minimal_version: Release { major: 2, minor: 0, patch: 0 },
        minimal_recommended_version: None,
        helper_text: String::from_str(
            "Reinstall `snforge` using the same installation method or follow instructions from https://foundry-rs.github.io/starknet-foundry/getting-started/installation.html#universal-sierra-compiler-update",
        ),
        version_pattern: String::from_str(
            "universal-sierra-compiler (?<version>[0-9]+.[0-9]+.[0-9]+)",
        ),
    }
}

/// What is asked of Rust, where it is needed.
pub fn rust_requirement() -> (requirement: Requirement)
    ensures
        requirement@ == rust_requirement_view(),
{
    Requirement {
        tool: Tool::Rust,
        name: String::from_str("Rust"),
        minimal_version: Release { major: 1, minor: 80, patch: 1 },
        minimal_recommended_version: None,
        helper_text: String::from_str(
            "Follow instructions from https://www.rust-lang.org/tools/install",
        ),
        version_pattern: String::from_str("rustc (?<version>[0-9]+.[0-9]+.[0-9]+)"),
    }
}

/// The tools that every test run needs, in the order in which they are
/// checked: Scarb, then the Universal Sierra Compiler.
pub fn check_requirements(resource: ForgeTrackedResource) -> (requirements: Vec<Requirement>)
    ensures
        requirements.len() == 2,
        requirements[0]@ == scarb_requirement_view(resource),
        requirements[1]@ == usc_requirement_view(),
{
    let mut requirements: Vec<Requirement> = Vec::new();
    requirements.push(scarb_requirement(resource));
    requirements.push(usc_requirement());
    requirements
}

/// Whether Rust has to be checked too: it builds the compiler plugin for a
/// Scarb that does not bring it built.
pub fn needs_rust(scarb_version: &Version) -> (needed: bool)
    ensures
        needed == scarb_version.precedes(scarb_with_prebuilt_plugin()),
{
    scarb_version.is_before(Release { major: 2, minor: 10, patch: 0 })
}

/// How an installed tool stands to what is asked of it.
#[derive(Clone, Copy, Debug, PartialEq, Eq, Structural)]
pub enum ToolStatus {
    /// The tool is not installed.
    Missing,
    /// The tool is older than the minimal version.
    BelowMinimal,
    /// The tool will do, and is older than the recommended version.
    BelowRecommended,
    /// The tool will do.
    Satisfied,
}

/// How a tool of this version, or a tool that is not installed, stands to a
/// requirement.
pub open spec fn status_of(requirement: RequirementView, version: Option<&Version>) -> ToolStatus {
    match version {
        None => ToolStatus::Missing,
        Some(found) => if found.precedes(requirement.minimal_version) {
            ToolStatus::BelowMinimal
        } else if requirement.minimal_recommended_version matches Some(recommended)
            && found.precedes(recommended) {
            ToolStatus::BelowRecommended
        } else {
            ToolStatus::Satisfied
        },
    }
}

/// How a tool of this version, or a tool that is not installed, stands to a
/// requirement.
pub fn tool_status(requirement: &Requirement, version: Option<&Version>) -> (status: ToolStatus)
    ensures
        status == status_of(requirement@, version),
{
    match version {
        None => ToolStatus::Missing,
        Some(found) => {
            if found.is_before(requirement.minimal_version) {
                ToolStatus::BelowMinimal
            } else {
                match requirement.minimal_recommended_version {
                    Some(recommended) => if found.is_before(recommended) {
                        ToolStatus::BelowRecommended
                    } else {
                        ToolStatus::Satisfied
                    },
                    None => ToolStatus::Satisfied,
                }
            }
        },
    }
}

/// Whether the tools that a test run needs are there, each at least at its
/// minimal version: Scarb and the Universal Sierra Compiler always, and
/// Rust where Scarb does not bring the compiler plugin built. A tool that
/// is not installed has no version. A version below the recommended one is
/// no failure.
pub fn requirements_met(
    resource: ForgeTrackedResource,
    scarb: Option<&Version>,
    usc: Option<&Version>,
    rust: Option<&Version>,
) -> (met: bool)
    ensures
        met == (scarb matches Some(s) && usc matches Some(u) && !s.precedes(
            scarb_requirement_view(resource).minimal_version,
        ) && !u.precedes(minimal_usc()) && (!s.precedes(scarb_with_prebuilt_plugin()) || (
        rust matches Some(r) && !r.precedes(minimal_rust())))),
{
    let minimal_scarb = match resource {
        ForgeTrackedResource::CairoSteps => Release { major: 2, minor: 9, patch: 1 },
        ForgeTrackedResource::SierraGas => Release { major: 2, minor: 10, patch: 0 },
    };
    match (scarb, usc) {
        (Some(s), Some(u)) => {
            if s.is_before(minimal_scarb) || u.is_before(Release { major: 2, minor: 0, patch: 0 }) {
                false
            } else if needs_rust(s) {
                match rust {
                    Some(r) => !r.is_before(Release { major: 1, minor: 80, patch: 1 }),
                    None => false,
                }
            } else {
                true
            }
        },
        _ => false,
    }
}

/// A requirement that one version meets and no other.
#[derive(Debug, PartialEq, Eq)]
pub struct VersionReq {
    pub major: u64,
    pub minor: u64,
    pub patch: u64,
    pub pre: String,
}

/// Whether a version is the one that a requirement asks for.
pub open spec fn meets(requirement: VersionReq, version: Version) -> bool {
    &&& version.major == requirement.major
    &&& version.minor == requirement.minor
    &&& version.patch == requirement.patch
    &&& version.pre@ == requirement.pre@
}

/// A requirement as the user reads it.
pub open spec fn requirement_text(requirement: VersionReq) -> Seq<char> {
    let numbers = "="@ + decimal_digits(requirement.major as nat) + "."@ + decimal_digits(
        requirement.minor as nat,
    ) + "."@ + decimal_digits(requirement.patch as nat);
    if requirement.pre@.len() > 0 {
        numbers + "-"@ + requirement.pre@
    } else {
        numbers
    }
}

/// Why the script library of a package cannot be judged.
#[derive(Clone, Copy, Debug, PartialEq, Eq, Structural)]
pub enum PackageError {
    /// The package does not depend on the script library.
    NotPresent,
    /// The package depends on the script library more than once.
    Duplicated,
}

/// The script library that goes with a version of the tool: the one of
/// exactly that version.
pub fn sncast_std_version_requirement(tool_version: &Version) -> (requirement: VersionReq)
    ensures
        meets(requirement, *tool_version),
        requirement.pre@ == tool_version.pre@,
{
    VersionReq {
        major: tool_version.major,
        minor: tool_version.minor,
        patch: tool_version.patch,
        pre: tool_version.pre.clone(),
    }
}

impl VersionReq {
    /// Whether a version is the one that the requirement asks for.
    pub fn matches(&self, version: &Version) -> (matches: bool)
        ensures
            matches == meets(*self, *version),
    {
        version.major == self.major && version.minor == self.minor && version.patch == self.patch
            && str_eq(version.pre.as_str(), self.pre.as_str())
    }

    /// The requirement as the user reads it.
    pub fn text(&self) -> (text: String)
        ensures
            text@ == requirement_text(*self),
    {
        let mut text = String::from_str("=");
        push_decimal(&mut text, self.major);
        text.append(".");
        push_decimal(&mut text, self.minor);
        text.append(".");
        push_decimal(&mut text, self.patch);
        if self.pre.as_str().unicode_len() > 0 {
            text.append("-");
            text.append(self.pre.as_str());
        }
        text
    }
}

/// Whether the script library of a package goes with the tool, given the
/// versions of the script library among the package's dependencies.
pub fn package_matches_version_requirement(
    found: &Vec<Version>,
    requirement: &VersionReq,
) -> (matches: Result<bool, PackageError>)
    ensures
        matches == if found.len() == 0 {
            Err::<bool, PackageError>(PackageError::NotPresent)
        } else if found.len() == 1 {
            Ok::<bool, PackageError>(meets(*requirement, found[0]))
        } else {
            Err::<bool, PackageError>(PackageError::Duplicated)
        },
{
    if found.len() == 0 {
        Err(PackageError::NotPresent)
    } else if found.len() == 1 {
        Ok(requirement.matches(&found[0]))
    } else {
        Err(PackageError::Duplicated)
    }
}

/// The warning for a script library that does not go with the tool, or
/// none where it does.
pub fn warn_if_sncast_std_not_compatible(
    found: &Vec<Version>,
    tool_version: &Version,
) -> (warning: Result<Option<String>, PackageError>)
    ensures
        match warning {
            Ok(Some(text)) => {
                &&& found.len() == 1
                &&& !meets(VersionReq {
                    major: tool_version.major,
                    minor: tool_version.minor,
                    patch: tool_version.patch,
                    pre: tool_version.pre,
                }, found[0])
                &&& text@
                    == "Package sncast_std version does not meet the recommended version requirement "@
                    + requirement_text(
                    VersionReq {
                        major: tool_version.major,
                        minor: tool_version.minor,
                        patch: tool_version.patch,
                        pre: tool_version.pre,
                    },
                ) + ", it might result in unexpected behaviour"@
            },
            Ok(None) => found.len() == 1 && meets(VersionReq {
                major: tool_version.major,
                minor: tool_version.minor,
                patch: tool_version.patch,
                pre: tool_version.pre,
            }, found[0]),
            Err(e) => e == if found.len() == 0 {
                PackageError::NotPresent
            } else {
                PackageError::Duplicated
            } && found.len() != 1,
        },
{
    let requirement = sncast_std_version_requirement(tool_version);
    match package_matches_version_requirement(found, &requirement) {
        Err(e) => Err(e),
        Ok(true) => Ok(None),
        Ok(false) => {
            let mut text = String::from_str(
                "Package sncast_std version does not meet the recommended version requirement ",
            );
            text.append(requirement.text().as_str());
            text.append(", it might result in unexpected behaviour");
            Ok(Some(text))
        },
    }
}

} // verus!
