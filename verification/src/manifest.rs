//! The manifest: package identity (name, version), the exposed module
//! names, and an optional build profile.  It is parsed from the one
//! distinguished entry of the packed set, whose reserved file name is
//! `plugin.conf.toml`.

use vstd::prelude::*;

verus! {

/// Package identity, as the manifest's `package` table states it.
#[derive(Debug)]
pub struct Package {
    pub name: String,
    pub version: String,
    pub exposes: Vec<String>,
}

/// The build profile: the shell command the live-rebuild loop runs.
#[derive(Debug)]
pub struct Profile {
    pub build: String,
}

/// A parsed manifest.  The build profile is optional: only deployments that
/// use live rebuild carry one.
#[derive(Debug)]
pub struct Config {
    pub package: Package,
    pub profile: Option<Profile>,
}

/// The reserved file name of the manifest entry.
pub open spec fn manifest_file_name() -> Seq<char> {
    "plugin.conf.toml"@
}

/// The manifest fields as plain mathematical values: package name, package
/// version, exposed module names, and the optional build command.
pub open spec fn config_view(c: Config) -> (Seq<char>, Seq<char>, Seq<Seq<char>>, Option<
    Seq<char>,
>) {
    (
        c.package.name@,
        c.package.version@,
        c.package.exposes.deep_view(),
        match c.profile {
            Some(p) => Some(p.build@),
            None => None,
        },
    )
}

/// What TOML parsing extracts from a manifest text: `package.name`,
/// `package.version`, `package.exposes` and, where present, `profile.build`;
/// `None` where the text is not such a manifest.  The result depends on the
/// text alone.
pub uninterp spec fn toml_manifest_of(s: Seq<char>) -> Option<
    (Seq<char>, Seq<char>, Seq<Seq<char>>, Option<Seq<char>>),
>;

/// Relies on `toml::Table`'s `FromStr` and `toml::Value`'s accessors
/// (`get`, `as_str`, `as_array`): parses the manifest text and hands the
/// four manifest fields out as plain strings.
#[verifier::external_body]
fn parse_manifest_toml(s: &str) -> (r: Option<(String, String, Vec<String>, Option<String>)>)
    ensures
        match r {
            Some(m) => toml_manifest_of(s@) == Some(
                (m.0@, m.1@, m.2.deep_view(), m.3.deep_view()),
            ),
            None => toml_manifest_of(s@) is None,
        },
{
    let table: toml::Table = match s.parse() {
        Ok(t) => t,
        Err(_) => return None,
    };
    let pkg = table.get("package")?;
    let name = pkg.get("name")?.as_str()?.to_string();
    let version = pkg.get("version")?.as_str()?.to_string();
    let exposes = pkg.get("exposes")?.as_array()?.iter().map(
        |v| v.as_str().map(|x| x.to_string()),
    ).collect::<Option<Vec<String>>>()?;
    let build = table.get("profile").and_then(|p| p.get("build")).and_then(|v| v.as_str()).map(
        |b| b.to_string(),
    );
    Some((name, version, exposes, build))
}

/// A manifest text the parser rejects.
#[derive(Clone, Copy, PartialEq, Eq, Structural, Debug)]
pub enum ConfigError {
    Invalid,
}

/// Parses a manifest text into a `Config`.  Succeeds exactly on texts that
/// carry the required `package` fields, and returns their values unchanged.
pub fn parse_config(s: &str) -> (r: Result<Config, ConfigError>)
    ensures
        match r {
            Ok(c) => toml_manifest_of(s@) == Some(config_view(c)),
            Err(e) => toml_manifest_of(s@) is None && e == ConfigError::Invalid,
        },
{
    match parse_manifest_toml(s) {
        Some((name, version, exposes, build)) => {
            let profile = match build {
                Some(b) => Some(Profile { build: b }),
                None => None,
            };
            Ok(Config { package: Package { name, version, exposes }, profile })
        },
        None => Err(ConfigError::Invalid),
    }
}

} // verus!
