//! Addons layered onto an instance: what kind of content they are, where
//! they came from, and which folder each kind belongs in.

use vstd::prelude::*;

use crate::instance::Modloader;

verus! {

/// Which remote API an addon was obtained from.
#[derive(Debug, Clone, Copy, PartialEq, Eq, Structural)]
pub enum ApiKind {
    Curseforge,
    Modrinth,
}

/// The kinds of addon content, each stored in its own folder.
#[derive(Debug, Clone, Copy, PartialEq, Eq, Structural)]
pub enum AddonKind {
    Mod,
    /// Legacy loader extension loaded before ordinary mods.
    CoreMod,
    Resource,
    /// Old game versions use `texturepacks`; kept apart from `Resource`
    /// rather than switching on a version number.
    Texture,
    Shader,
}

impl AddonKind {
    /// The instance subfolder this kind of addon is stored in.
    pub fn get_folder(&self) -> (r: String)
        ensures
            (match self {
                AddonKind::Mod => r@ == "mods"@,
                AddonKind::CoreMod => r@ == "coremods"@,
                AddonKind::Resource => r@ == "resourcepacks"@,
                AddonKind::Texture => r@ == "texturepacks"@,
                AddonKind::Shader => r@ == "shaderpacks"@,
            }),
    {
        match self {
            AddonKind::Mod => "mods".to_owned(),
            AddonKind::CoreMod => "coremods".to_owned(),
            AddonKind::Resource => "resourcepacks".to_owned(),
            AddonKind::Texture => "texturepacks".to_owned(),
            AddonKind::Shader => "shaderpacks".to_owned(),
        }
    }
}

/// Where an addon's file originates.
#[derive(Debug, Clone)]
pub struct AddonLocation {
    /// Determines what API to use when downloading the file.
    pub api: ApiKind,
    /// The version currently downloaded.
    pub version_id: String,
}

impl AddonLocation {
    pub fn curseforge(version_id: String) -> (r: Self)
        ensures
            r.api == ApiKind::Curseforge,
            r.version_id@ == version_id@,
    {
        AddonLocation { api: ApiKind::Curseforge, version_id }
    }

    pub fn modrinth(version_id: String) -> (r: Self)
        ensures
            r.api == ApiKind::Modrinth,
            r.version_id@ == version_id@,
    {
        AddonLocation { api: ApiKind::Modrinth, version_id }
    }
}

/// An installed addon: the file it is checked against, its kind, the
/// loaders and game versions it works with, its hash, and its origin.
#[derive(Debug, Clone)]
pub struct Addon {
    /// The file checked when verifying or updating.
    pub file_name: String,
    /// Determines the folder the addon goes in.
    pub kind: AddonKind,
    /// The loaders this addon works on (empty, or `Vanilla` alone, for all).
    pub loaders: Vec<Modloader>,
    /// The game versions allowed by this addon.
    pub game_versions: Vec<String>,
    /// The file hash to check against.
    pub hash: String,
    /// Location data for the origin.
    pub location: AddonLocation,
}

} // verus!
