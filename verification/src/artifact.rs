//! Artifact identities and their locations in the local library cache.
//! Every path segment derived from metadata is sanitized, so the computed
//! path stays inside the libraries root whatever the metadata says.

use vstd::prelude::*;
use vstd::string::StrSliceExecFns;

use crate::config::Config;
use crate::hashing::HashVal;
use crate::pathsafe::spec_split;
use crate::strutil::{push_char, strs};

verus! {

/// A Gradle-style artifact coordinate.
#[derive(Debug, Clone)]
pub struct ArtifactId {
    pub group: String,
    pub artifact: String,
    pub version: String,
    pub classifier: Option<String>,
    pub extension: String,
}

/// The view of an optional string.
pub open spec fn opt_str(o: Option<String>) -> Option<Seq<char>> {
    match o {
        Option::None => Option::None,
        Option::Some(s) => Option::Some(s@),
    }
}

impl ArtifactId {
    /// The full identity as plain values.
    pub open spec fn spec_id(&self) -> (Seq<char>, Seq<char>, Seq<char>, Option<Seq<char>>, Seq<
        char,
    >) {
        (self.group@, self.artifact@, self.version@, opt_str(self.classifier), self.extension@)
    }

    /// The identity with the version blanked: two ids with equal keys name
    /// the same logical artifact, used for classpath de-duplication.
    pub open spec fn spec_key(&self) -> (Seq<char>, Seq<char>, Option<Seq<char>>, Seq<char>) {
        (self.group@, self.artifact@, opt_str(self.classifier), self.extension@)
    }

    /// An equal copy, usable in verified code.
    pub fn dup(&self) -> (r: ArtifactId)
        ensures
            r == *self,
    {
        ArtifactId {
            group: self.group.clone(),
            artifact: self.artifact.clone(),
            version: self.version.clone(),
            classifier: match &self.classifier {
                Option::None => Option::None,
                Option::Some(c) => Option::Some(c.clone()),
            },
            extension: self.extension.clone(),
        }
    }

    /// Whether the two ids are the same logical artifact (version ignored).
    pub fn same_unversioned(&self, other: &ArtifactId) -> (r: bool)
        ensures
            r == (self.spec_key() == other.spec_key()),
    {
        let classifier_eq = match (&self.classifier, &other.classifier) {
            (Option::None, Option::None) => true,
            (Option::Some(a), Option::Some(b)) => *a == *b,
            _ => false,
        };
        self.group == other.group && self.artifact == other.artifact && classifier_eq
            && self.extension == other.extension
    }

    /// Whether the two ids are identical, version included.
    pub fn same_id(&self, other: &ArtifactId) -> (r: bool)
        ensures
            r == (self.spec_id() == other.spec_id()),
    {
        self.same_unversioned(other) && self.version == other.version
    }
}

/// A way to obtain an artifact's bytes. Downloading is the only variant;
/// the enum leaves room for future non-network sources.
#[derive(Debug, Clone)]
pub enum Artifact {
    Download { url: String, size: u32, hash: HashVal },
}

impl Artifact {
    /// An equal copy, usable in verified code.
    pub fn dup(&self) -> (r: Artifact)
        ensures
            r == *self,
    {
        match self {
            Artifact::Download { url, size, hash } => Artifact::Download {
                url: url.clone(),
                size: *size,
                hash: hash.dup(),
            },
        }
    }
}

/// A character kept as-is by name sanitization: ASCII letters, digits,
/// `.`, `-` and `_`.
pub open spec fn spec_char_kept(c: char) -> bool {
    ||| (97 <= c as u32 && c as u32 <= 122)
    ||| (65 <= c as u32 && c as u32 <= 90)
    ||| (48 <= c as u32 && c as u32 <= 57)
    ||| c == '.'
    ||| c == '-'
    ||| c == '_'
}

/// What one character contributes to a sanitized name: itself if kept,
/// the fixed placeholder `__` otherwise.
pub open spec fn spec_clean_char(c: char) -> Seq<char> {
    if spec_char_kept(c) {
        seq![c]
    } else {
        seq!['_', '_']
    }
}

pub open spec fn spec_clean_rest(s: Seq<char>) -> Seq<char>
    decreases s.len(),
{
    if s.len() == 0 {
        Seq::<char>::empty()
    } else {
        spec_clean_char(s[0]) + spec_clean_rest(s.drop_first())
    }
}

/// A name sanitized for use as a path segment: every character outside the
/// kept set, and a leading dot, becomes `__`.
pub open spec fn spec_clean_name(s: Seq<char>) -> Seq<char> {
    if s.len() > 0 && s[0] == '.' {
        seq!['_', '_'] + spec_clean_rest(s.drop_first())
    } else {
        spec_clean_rest(s)
    }
}

fn char_kept(c: char) -> (r: bool)
    ensures
        r == spec_char_kept(c),
{
    let u = c as u32;
    (97 <= u && u <= 122) || (65 <= u && u <= 90) || (48 <= u && u <= 57) || c == '.' || c == '-'
        || c == '_'
}

fn clean_rest_from(s: &str, i: usize) -> (r: String)
    requires
        i <= s@.len(),
    ensures
        r@ =~= spec_clean_rest(s@.skip(i as int)),
    decreases s@.len() - i,
{
    let n = s.unicode_len();
    if i == n {
        assert(s@.skip(i as int) =~= Seq::<char>::empty());
        String::new()
    } else {
        let c = s.get_char(i);
        let rest = clean_rest_from(s, i + 1);
        let mut r = String::new();
        if char_kept(c) {
            push_char(&mut r, c);
        } else {
            push_char(&mut r, '_');
            push_char(&mut r, '_');
        }
        r.append(rest.as_str());
        assert(s@.skip(i as int).drop_first() =~= s@.skip(i as int + 1));
        r
    }
}

impl Artifact {
    /// Sanitizes one metadata-supplied name for use as a path segment.
    pub fn clean_name(name: &str) -> (r: String)
        ensures
            r@ == spec_clean_name(name@),
    {
        let n = name.unicode_len();
        if n == 0 {
            assert(name@.skip(0) =~= name@);
            clean_rest_from(name, 0)
        } else if name.get_char(0) == '.' {
            let rest = clean_rest_from(name, 1);
            let mut r = String::new();
            push_char(&mut r, '_');
            push_char(&mut r, '_');
            r.append(rest.as_str());
            assert(r@ =~= spec_clean_name(name@));
            r
        } else {
            assert(name@.skip(0) =~= name@);
            clean_rest_from(name, 0)
        }
    }
}

/// The file name of an artifact: `<artifact>-<version>[-<classifier>].<extension>`.
pub open spec fn spec_artifact_file_name(id: ArtifactId) -> Seq<char> {
    id.artifact@ + seq!['-'] + id.version@ + (match id.classifier {
        Option::None => Seq::<char>::empty(),
        Option::Some(c) => seq!['-'] + c@,
    }) + seq!['.'] + id.extension@
}

fn artifact_file_name(id: &ArtifactId) -> (r: String)
    ensures
        r@ == spec_artifact_file_name(*id),
{
    let mut r = id.artifact.clone();
    push_char(&mut r, '-');
    r.append(id.version.as_str());
    match &id.classifier {
        Option::None => {},
        Option::Some(c) => {
            push_char(&mut r, '-');
            r.append(c.as_str());
        },
    }
    push_char(&mut r, '.');
    r.append(id.extension.as_str());
    assert(r@ =~= spec_artifact_file_name(*id));
    r
}

/// What the dot-separated group segments contribute to the path: `/` then
/// the sanitized segment, each in turn.
pub open spec fn spec_group_dirs(parts: Seq<Seq<char>>) -> Seq<char>
    decreases parts.len(),
{
    if parts.len() == 0 {
        Seq::<char>::empty()
    } else {
        seq!['/'] + spec_clean_name(parts[0]) + spec_group_dirs(parts.drop_first())
    }
}

fn group_dirs_from(parts: &Vec<String>, i: usize) -> (r: String)
    requires
        i <= parts@.len(),
    ensures
        r@ =~= spec_group_dirs(strs(parts@).skip(i as int)),
    decreases parts@.len() - i,
{
    if i == parts.len() {
        String::new()
    } else {
        let rest = group_dirs_from(parts, i + 1);
        let mut r = String::new();
        push_char(&mut r, '/');
        r.append(Artifact::clean_name(parts[i].as_str()).as_str());
        r.append(rest.as_str());
        assert(strs(parts@).skip(i as int).drop_first() =~= strs(parts@).skip(i as int + 1));
        assert(strs(parts@).skip(i as int)[0] == parts@[i as int]@);
        r
    }
}

/// Where an artifact lives under the libraries root: the sanitized group
/// segments, then the sanitized artifact name, version, and file name.
pub open spec fn spec_artifact_path(id: ArtifactId, libraries_root: Seq<char>) -> Seq<char> {
    libraries_root + spec_group_dirs(spec_split(id.group@, '.')) + seq!['/']
        + spec_clean_name(id.artifact@) + seq!['/'] + spec_clean_name(id.version@) + seq!['/']
        + spec_clean_name(spec_artifact_file_name(id))
}

impl Artifact {
    /// Computes where this artifact would live in the local cache, without
    /// fetching anything.
    pub fn get_path(&self, name: &ArtifactId, config: &Config) -> (r: String)
        ensures
            r@ == spec_artifact_path(
                *name,
                config.spec_base_path() + "/"@ + config.spec_libraries_dir(),
            ),
    {
        match self {
            Artifact::Download { .. } => {
                let mut path = config.get_libraries_path();
                let parts = crate::pathsafe::split_str(name.group.as_str(), '.');
                path.append(group_dirs_from(&parts, 0).as_str());
                assert(strs(parts@).skip(0) =~= strs(parts@));
                push_char(&mut path, '/');
                path.append(Artifact::clean_name(name.artifact.as_str()).as_str());
                push_char(&mut path, '/');
                path.append(Artifact::clean_name(name.version.as_str()).as_str());
                push_char(&mut path, '/');
                path.append(Artifact::clean_name(artifact_file_name(name).as_str()).as_str());
                assert(path@ =~= spec_artifact_path(
                    *name,
                    config.spec_base_path() + "/"@ + config.spec_libraries_dir(),
                ));
                path
            },
        }
    }
}

} // verus!
