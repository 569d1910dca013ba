//! The component-metadata model consumed from the catalog, the platform
//! filter rule, and the network-first / cache-fallback retrieval policy.
//! Fetching itself is I/O and lives with the caller; the policy over the
//! outcomes is decided here.

use vstd::prelude::*;
use vstd::string::StrSliceExecFns;

use crate::artifact::ArtifactId;
use crate::error::ComponentMetaRetrievalError;
use crate::hashing::HashVal;
use crate::strutil::{str_eq, strs, spec_dec, u32_to_dec};

verus! {

/// A platform filter: an optional exact architecture constraint and a set
/// of acceptable operating systems (empty means any).
#[derive(Debug, Clone)]
pub struct Platform {
    pub arch: Option<String>,
    pub os: Vec<String>,
}

/// The platform match rule: an architecture constraint requires an exact
/// match; a non-empty OS set requires membership; absent or empty
/// constraints always match.
pub open spec fn spec_platform_matches(p: Platform, arch: Seq<char>, os: Seq<char>) -> bool {
    &&& match p.arch {
        Option::None => true,
        Option::Some(a) => a@ == arch,
    }
    &&& (p.os@.len() > 0 ==> strs(p.os@).contains(os))
}

pub fn platform_matches(p: &Platform, current_arch: &str, current_os: &str) -> (r: bool)
    ensures
        r == spec_platform_matches(*p, current_arch@, current_os@),
{
    match &p.arch {
        Option::Some(a) => {
            if !str_eq(a.as_str(), current_arch) {
                return false;
            }
        },
        Option::None => {},
    }
    if p.os.len() == 0 {
        return true;
    }
    let n = p.os.len();
    let mut i: usize = 0;
    while i < n
        invariant
            n == p.os@.len(),
            i <= n,
            forall|j: int| 0 <= j < i ==> strs(p.os@)[j] != current_os@,
            (match p.arch {
                Option::Some(a) => a@ == current_arch@,
                Option::None => true,
            }),
        decreases n - i,
    {
        if str_eq(p.os[i].as_str(), current_os) {
            assert(strs(p.os@).contains(current_os@)) by {
                assert(strs(p.os@)[i as int] == current_os@);
            };
            return true;
        }
        i = i + 1;
    }
    assert(forall|j: int| 0 <= j < strs(p.os@).len() ==> strs(p.os@)[j] != current_os@);
    false
}

/// A feature that a conditional game argument may be predicated on.
/// Features the composer does not recognize are carried as `Other` and
/// never satisfied.
#[derive(Debug, Clone, Copy, PartialEq, Eq, Structural)]
pub enum ConditionFeature {
    Demo,
    QuickPlayWorld,
    Other,
}

/// A game argument: either always passed, or only when its feature holds.
#[derive(Debug, Clone)]
pub enum MinecraftArgument {
    Always(String),
    Conditional { value: String, feature: ConditionFeature },
}

impl MinecraftArgument {
    /// An equal copy, usable in verified code.
    pub fn dup(&self) -> (r: MinecraftArgument)
        ensures
            r == *self,
    {
        match self {
            MinecraftArgument::Always(s) => MinecraftArgument::Always(s.clone()),
            MinecraftArgument::Conditional { value, feature } => MinecraftArgument::Conditional {
                value: value.clone(),
                feature: *feature,
            },
        }
    }
}

/// A native-library entry of a component: the artifact, the platforms it
/// applies to, and path prefixes excluded from extraction.
#[derive(Debug, Clone)]
pub struct MetaNative {
    pub name: ArtifactId,
    pub platform: Platform,
    pub exclusions: Vec<String>,
}

/// A classpath entry, optionally limited to a platform.
#[derive(Debug, Clone)]
pub enum ConditionalClasspathEntry {
    All(ArtifactId),
    PlatformSpecific { name: ArtifactId, platform: Platform },
}

/// One downloadable artifact declared by a component.
#[derive(Debug, Clone)]
pub struct DownloadEntry {
    pub name: ArtifactId,
    pub url: String,
    pub size: u32,
    pub hash: HashVal,
}

/// The assets descriptor of a component: the index identity and how to
/// verify the index document.
#[derive(Debug, Clone)]
pub struct AssetsMeta {
    pub id: String,
    pub url: String,
    pub size: u32,
    pub sha1: String,
}

impl AssetsMeta {
    /// An equal copy, usable in verified code.
    pub fn dup(&self) -> (r: AssetsMeta)
        ensures
            r == *self,
    {
        AssetsMeta {
            id: self.id.clone(),
            url: self.url.clone(),
            size: self.size,
            sha1: self.sha1.clone(),
        }
    }
}

/// Everything a component's metadata document declares.
#[derive(Debug)]
pub struct ComponentMeta {
    pub traits: Vec<String>,
    pub natives: Vec<MetaNative>,
    pub jarmods: Vec<ArtifactId>,
    pub classpath: Vec<ConditionalClasspathEntry>,
    pub downloads: Vec<DownloadEntry>,
    pub game_jar: Option<ArtifactId>,
    pub assets: Option<AssetsMeta>,
    pub main_class: Option<String>,
    pub game_arguments: Vec<MinecraftArgument>,
}

/// One release in a component's version index.
#[derive(Debug, Clone)]
pub struct IndexEntry {
    pub version: String,
}

/// Whether the index lists the version.
pub fn version_exists(index: &Vec<IndexEntry>, version: &str) -> (r: bool)
    ensures
        r == (exists|i: int| 0 <= i < index@.len() && index@[i].version@ == version@),
{
    let n = index.len();
    let mut i: usize = 0;
    while i < n
        invariant
            n == index@.len(),
            i <= n,
            forall|j: int| 0 <= j < i ==> index@[j].version@ != version@,
        decreases n - i,
    {
        if str_eq(index[i].version.as_str(), version) {
            return true;
        }
        i = i + 1;
    }
    false
}

/// What one attempt against the catalog came back with.
#[derive(Debug)]
pub enum FetchOutcome {
    /// A successful response and its body.
    Success(Vec<u8>),
    /// The catalog answered, but with a not-found status.
    NotFound,
    /// The catalog answered with some other failure status.
    HttpError { status: u16 },
    /// The request never completed.
    Transport { message: String },
}

/// The retrieval policy for one component-metadata document, decided over
/// the network outcome and the bytes of any cache file. On success the
/// fresh bytes are used and must be persisted (the `bool` in the result);
/// on failure a present cache is used silently; otherwise a not-found
/// status becomes the targeted `VersionNotFound`, and any other failure is
/// surfaced as it is.
pub fn select_meta_source(
    id: &str,
    version: &str,
    network: FetchOutcome,
    cache: Option<Vec<u8>>,
) -> (r: Result<(Vec<u8>, bool), ComponentMetaRetrievalError>)
    ensures
        (match network {
            FetchOutcome::Success(data) => r matches Ok(p) && p.0@ == data@ && p.1 == true,
            FetchOutcome::NotFound => match cache {
                Option::Some(c) => r matches Ok(p) && p.0@ == c@ && p.1 == false,
                Option::None => r matches Err(e)
                    && e matches ComponentMetaRetrievalError::VersionNotFound {
                    id: eid,
                    version: ev,
                } && eid@ == id@ && ev@ == version@,
            },
            FetchOutcome::HttpError { status } => match cache {
                Option::Some(c) => r matches Ok(p) && p.0@ == c@ && p.1 == false,
                Option::None => r matches Err(e)
                    && e matches ComponentMetaRetrievalError::IoError { message } && message@
                    == "http status "@ + spec_dec(status as nat),
            },
            FetchOutcome::Transport { message: m } => match cache {
                Option::Some(c) => r matches Ok(p) && p.0@ == c@ && p.1 == false,
                Option::None => r matches Err(e)
                    && e matches ComponentMetaRetrievalError::IoError { message } && message@
                    == m@,
            },
        }),
{
    match network {
        FetchOutcome::Success(data) => Ok((data, true)),
        other => match cache {
            Option::Some(c) => Ok((c, false)),
            Option::None => match other {
                FetchOutcome::NotFound => Err(ComponentMetaRetrievalError::VersionNotFound {
                    id: id.to_owned(),
                    version: version.to_owned(),
                }),
                FetchOutcome::HttpError { status } => Err(ComponentMetaRetrievalError::IoError {
                    message: http_status_message(status),
                }),
                FetchOutcome::Transport { message } => Err(ComponentMetaRetrievalError::IoError {
                    message,
                }),
                FetchOutcome::Success(_) => Err(ComponentMetaRetrievalError::IoError {
                    message: String::new(),
                }),
            },
        },
    }
}

fn http_status_message(status: u16) -> (r: String)
    ensures
        r@ == "http status "@ + spec_dec(status as nat),
{
    let mut m: String = "http status ".to_owned();
    m.append(u32_to_dec(status as u32).as_str());
    m
}

/// The retrieval policy for a component's version index: the same
/// network-first, cache-fallback rule, with the targeted error naming the
/// component rather than a version.
pub fn select_index_source(id: &str, network: FetchOutcome, cache: Option<Vec<u8>>) -> (r: Result<
    (Vec<u8>, bool),
    ComponentMetaRetrievalError,
>)
    ensures
        (match network {
            FetchOutcome::Success(data) => r matches Ok(p) && p.0@ == data@ && p.1 == true,
            FetchOutcome::NotFound => match cache {
                Option::Some(c) => r matches Ok(p) && p.0@ == c@ && p.1 == false,
                Option::None => r matches Err(e)
                    && e matches ComponentMetaRetrievalError::IndexNotFound { id: eid } && eid@
                    == id@,
            },
            FetchOutcome::HttpError { status } => match cache {
                Option::Some(c) => r matches Ok(p) && p.0@ == c@ && p.1 == false,
                Option::None => r matches Err(e)
                    && e matches ComponentMetaRetrievalError::IoError { message } && message@
                    == "http status "@ + spec_dec(status as nat),
            },
            FetchOutcome::Transport { message: m } => match cache {
                Option::Some(c) => r matches Ok(p) && p.0@ == c@ && p.1 == false,
                Option::None => r matches Err(e)
                    && e matches ComponentMetaRetrievalError::IoError { message } && message@
                    == m@,
            },
        }),
{
    match network {
        FetchOutcome::Success(data) => Ok((data, true)),
        other => match cache {
            Option::Some(c) => Ok((c, false)),
            Option::None => match other {
                FetchOutcome::NotFound => Err(ComponentMetaRetrievalError::IndexNotFound {
                    id: id.to_owned(),
                }),
                FetchOutcome::HttpError { status } => Err(ComponentMetaRetrievalError::IoError {
                    message: http_status_message(status),
                }),
                FetchOutcome::Transport { message } => Err(ComponentMetaRetrievalError::IoError {
                    message,
                }),
                FetchOutcome::Success(_) => Err(ComponentMetaRetrievalError::IoError {
                    message: String::new(),
                }),
            },
        },
    }
}

/// The catalog URL of one component version: `<base>/<id>/<version>.json`
/// (the base is expected to end in `/`).
pub fn meta_document_url(base: &str, id: &str, version: &str) -> (r: String)
    ensures
        r@ == base@ + id@ + "/"@ + version@ + ".json"@,
{
    let mut u: String = base.to_owned();
    u.append(id);
    u.append("/");
    u.append(version);
    u.append(".json");
    u
}

/// The cache file of one component version, relative to the base
/// directory: `meta/<id>/<version>.json`.
pub fn meta_cache_rel_path(id: &str, version: &str) -> (r: String)
    ensures
        r@ == "meta/"@ + id@ + "/"@ + version@ + ".json"@,
{
    let mut p: String = "meta/".to_owned();
    p.append(id);
    p.append("/");
    p.append(version);
    p.append(".json");
    p
}

} // verus!
