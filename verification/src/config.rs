//! Launcher configuration: the data directory and the locations of the
//! instance, library and asset stores beneath it.

use vstd::prelude::*;
use vstd::string::StringExecFns;

verus! {

/// Joins two path fragments with a single `/` separator.
pub fn join_path(base: &str, rel: &str) -> (r: String)
    ensures
        r@ == base@ + "/"@ + rel@,
{
    let mut s: String = base.to_owned();
    s.append("/");
    s.append(rel);
    s
}

/// Launcher-wide configuration. The directory fields are stored relative to
/// the base path; the getters resolve them against it.
pub struct Config {
    base_path: String,
    instances_dir: String,
    libraries_dir: String,
    assets_dir: String,
}

impl Config {
    /// The default layout: `instances`, `libraries` and `assets` directly
    /// under the data directory.
    pub fn default_config(base_path: String) -> (r: Config)
        ensures
            r.spec_base_path() == base_path@,
            r.spec_instances_dir() == "instances"@,
            r.spec_libraries_dir() == "libraries"@,
            r.spec_assets_dir() == "assets"@,
    {
        Config {
            base_path,
            instances_dir: "instances".to_owned(),
            libraries_dir: "libraries".to_owned(),
            assets_dir: "assets".to_owned(),
        }
    }

    /// A configuration with every directory chosen by the caller.
    pub fn with_dirs(
        base_path: String,
        instances_dir: String,
        libraries_dir: String,
        assets_dir: String,
    ) -> (r: Config)
        ensures
            r.spec_base_path() == base_path@,
            r.spec_instances_dir() == instances_dir@,
            r.spec_libraries_dir() == libraries_dir@,
            r.spec_assets_dir() == assets_dir@,
    {
        Config { base_path, instances_dir, libraries_dir, assets_dir }
    }

    pub closed spec fn spec_base_path(&self) -> Seq<char> {
        self.base_path@
    }

    pub closed spec fn spec_instances_dir(&self) -> Seq<char> {
        self.instances_dir@
    }

    pub closed spec fn spec_libraries_dir(&self) -> Seq<char> {
        self.libraries_dir@
    }

    pub closed spec fn spec_assets_dir(&self) -> Seq<char> {
        self.assets_dir@
    }

    pub fn get_base_path(&self) -> (r: &String)
        ensures
            r@ == self.spec_base_path(),
    {
        &self.base_path
    }

    pub fn get_instances_path(&self) -> (r: String)
        ensures
            r@ == self.spec_base_path() + "/"@ + self.spec_instances_dir(),
    {
        join_path(self.base_path.as_str(), self.instances_dir.as_str())
    }

    pub fn get_libraries_path(&self) -> (r: String)
        ensures
            r@ == self.spec_base_path() + "/"@ + self.spec_libraries_dir(),
    {
        join_path(self.base_path.as_str(), self.libraries_dir.as_str())
    }

    pub fn get_assets_path(&self) -> (r: String)
        ensures
            r@ == self.spec_base_path() + "/"@ + self.spec_assets_dir(),
    {
        join_path(self.base_path.as_str(), self.assets_dir.as_str())
    }
}

} // verus!
