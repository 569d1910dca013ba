//! Turning a merge result into concrete work: which artifacts are needed
//! and where each lives in the cache, which jar the runtime uses, and what
//! the asset index demands. Every artifact id referenced by the classpath,
//! game jar, jarmods or natives must have an artifact entry; absence is a
//! programming-contract violation, not a user error.

use vstd::prelude::*;
use vstd::string::StrSliceExecFns;

use crate::artifact::{Artifact, ArtifactId};
use crate::config::Config;
use crate::error::LaunchError;
use crate::merge::{MergedComponents, Native};
use crate::pathsafe::{check_path, spec_path_ok};
use crate::seqops::{dedup_by, keys_of, lemma_dedup_by_keys, lemma_dedup_by_push,
    lemma_keys_of_contains};

verus! {

pub open spec fn full_key() -> spec_fn(ArtifactId) -> (
    Seq<char>,
    Seq<char>,
    Seq<char>,
    Option<Seq<char>>,
    Seq<char>,
) {
    |id: ArtifactId| id.spec_id()
}

pub open spec fn native_name() -> spec_fn(Native) -> ArtifactId {
    |n: Native| n.name
}

/// Every artifact id the launch needs, in reference order: the classpath,
/// the game jar, the jarmods, then the natives, without repetition.
pub open spec fn spec_needed_ids(m: MergedComponents) -> Seq<ArtifactId> {
    dedup_by(
        m.classpath@ + seq![m.game_jar] + m.jarmods@ + m.natives@.map_values(native_name()),
        full_key(),
        Set::empty(),
    )
}

/// The first artifact registered under the id.
pub open spec fn spec_lookup_artifact(arts: Seq<(ArtifactId, Artifact)>, id: ArtifactId) -> Option<
    Artifact,
>
    decreases arts.len(),
{
    if arts.len() == 0 {
        Option::None
    } else if arts[0].0.spec_id() == id.spec_id() {
        Option::Some(arts[0].1)
    } else {
        spec_lookup_artifact(arts.drop_first(), id)
    }
}

impl MergedComponents {
    /// The documented contract of a merge result: everything the classpath,
    /// game jar, jarmods and natives refer to has an artifact entry.
    pub open spec fn well_formed(&self) -> bool {
        forall|k: int|
            0 <= k < spec_needed_ids(*self).len() ==> spec_lookup_artifact(
                self.artifacts@,
                #[trigger] spec_needed_ids(*self)[k],
            ) is Some
    }
}

fn contains_full(v: &Vec<ArtifactId>, id: &ArtifactId) -> (r: bool)
    ensures
        r == keys_of(v@, full_key()).contains(id.spec_id()),
{
    let n = v.len();
    let mut i: usize = 0;
    let mut found = false;
    while i < n
        invariant
            n == v@.len(),
            i <= n,
            found == exists|l: int| 0 <= l < i && v@[l].spec_id() == id.spec_id(),
        decreases n - i,
    {
        if v[i].same_id(id) {
            found = true;
        }
        i = i + 1;
    }
    proof {
        lemma_keys_of_contains(v@, full_key(), id.spec_id());
    }
    found
}

fn lookup_artifact_from(arts: &Vec<(ArtifactId, Artifact)>, id: &ArtifactId, i: usize) -> (r:
    Option<Artifact>)
    requires
        i <= arts@.len(),
    ensures
        r == spec_lookup_artifact(arts@.skip(i as int), *id),
    decreases arts@.len() - i,
{
    if i == arts.len() {
        assert(arts@.skip(i as int) =~= Seq::<(ArtifactId, Artifact)>::empty());
        Option::None
    } else {
        assert(arts@.skip(i as int)[0] == arts@[i as int]);
        assert(arts@.skip(i as int).drop_first() =~= arts@.skip(i as int + 1));
        if arts[i].0.same_id(id) {
            Option::Some(arts[i].1.dup())
        } else {
            lookup_artifact_from(arts, id, i + 1)
        }
    }
}

impl MergedComponents {
    /// Resolves everything the launch needs: each needed artifact id, the
    /// artifact registered for it, and the local cache path where its file
    /// belongs. Nothing is fetched; the caller downloads whatever fails
    /// validation at its path.
    pub fn get_all(&self, config: &Config) -> (r: Vec<(ArtifactId, Artifact, String)>)
        requires
            self.well_formed(),
        ensures
            r@.len() == spec_needed_ids(*self).len(),
            forall|k: int|
                0 <= k < r@.len() ==> {
                    &&& (#[trigger] r@[k]).0 == spec_needed_ids(*self)[k]
                    &&& Option::Some(r@[k].1) == spec_lookup_artifact(
                        self.artifacts@,
                        spec_needed_ids(*self)[k],
                    )
                    &&& r@[k].2@ == crate::artifact::spec_artifact_path(
                        spec_needed_ids(*self)[k],
                        config.spec_base_path() + "/"@ + config.spec_libraries_dir(),
                    )
                },
    {
        let needed = self.needed_ids();
        let n = needed.len();
        let mut out: Vec<(ArtifactId, Artifact, String)> = Vec::new();
        let mut k: usize = 0;
        while k < n
            invariant
                n == needed@.len(),
                needed@ == spec_needed_ids(*self),
                self.well_formed(),
                k <= n,
                out@.len() == k,
                forall|l: int|
                    0 <= l < k ==> {
                        &&& (#[trigger] out@[l]).0 == spec_needed_ids(*self)[l]
                        &&& Option::Some(out@[l].1) == spec_lookup_artifact(
                            self.artifacts@,
                            spec_needed_ids(*self)[l],
                        )
                        &&& out@[l].2@ == crate::artifact::spec_artifact_path(
                            spec_needed_ids(*self)[l],
                            config.spec_base_path() + "/"@ + config.spec_libraries_dir(),
                        )
                    },
            decreases n - k,
        {
            let id = &needed[k];
            let art = match lookup_artifact_from(&self.artifacts, id, 0) {
                Option::Some(a) => a,
                Option::None => {
                    assert(self.artifacts@.skip(0) =~= self.artifacts@);
                    assert(false);
                    vstd::pervasive::unreached()
                },
            };
            assert(self.artifacts@.skip(0) =~= self.artifacts@);
            let path = art.get_path(id, config);
            out.push((id.dup(), art, path));
            k = k + 1;
        }
        out
    }

    /// The needed artifact ids, in reference order.
    pub fn needed_ids(&self) -> (r: Vec<ArtifactId>)
        ensures
            r@ == spec_needed_ids(*self),
    {
        let ghost stream = self.classpath@ + seq![self.game_jar] + self.jarmods@
            + self.natives@.map_values(native_name());
        let mut all: Vec<ArtifactId> = Vec::new();
        let mut i: usize = 0;
        let n1 = self.classpath.len();
        while i < n1
            invariant
                n1 == self.classpath@.len(),
                i <= n1,
                all@ =~= self.classpath@.take(i as int),
            decreases n1 - i,
        {
            all.push(self.classpath[i].dup());
            assert(all@ =~= self.classpath@.take(i as int + 1));
            i = i + 1;
        }
        assert(self.classpath@.take(n1 as int) =~= self.classpath@);
        all.push(self.game_jar.dup());
        let n2 = self.jarmods.len();
        let mut j: usize = 0;
        while j < n2
            invariant
                n2 == self.jarmods@.len(),
                j <= n2,
                all@ =~= self.classpath@ + seq![self.game_jar] + self.jarmods@.take(j as int),
            decreases n2 - j,
        {
            all.push(self.jarmods[j].dup());
            assert(all@ =~= self.classpath@ + seq![self.game_jar] + self.jarmods@.take(
                j as int + 1,
            ));
            j = j + 1;
        }
        assert(self.jarmods@.take(n2 as int) =~= self.jarmods@);
        let n3 = self.natives.len();
        let mut l: usize = 0;
        while l < n3
            invariant
                n3 == self.natives@.len(),
                l <= n3,
                all@ =~= self.classpath@ + seq![self.game_jar] + self.jarmods@
                    + self.natives@.map_values(native_name()).take(l as int),
            decreases n3 - l,
        {
            all.push(self.natives[l].name.dup());
            assert(all@ =~= self.classpath@ + seq![self.game_jar] + self.jarmods@
                + self.natives@.map_values(native_name()).take(l as int + 1));
            l = l + 1;
        }
        assert(self.natives@.map_values(native_name()).take(n3 as int)
            =~= self.natives@.map_values(native_name()));
        assert(all@ =~= stream);
        // First-wins de-duplication over the combined reference stream.
        let mut out: Vec<ArtifactId> = Vec::new();
        let total = all.len();
        let mut k: usize = 0;
        while k < total
            invariant
                total == all@.len(),
                all@ =~= stream,
                k <= total,
                out@ == dedup_by(all@.take(k as int), full_key(), Set::empty()),
            decreases total - k,
        {
            let ghost prefix = all@.take(k as int);
            let id = &all[k];
            let present = contains_full(&out, id);
            proof {
                lemma_dedup_by_keys(prefix, full_key(), Set::empty());
                lemma_dedup_by_push(prefix, all@[k as int], full_key(), Set::empty());
                assert(Set::<(Seq<char>, Seq<char>, Seq<char>, Option<Seq<char>>, Seq<
                    char,
                >)>::empty().union(keys_of(prefix, full_key())) =~= keys_of(prefix, full_key()));
                assert(all@.take(k as int + 1) =~= prefix.push(all@[k as int]));
            }
            if !present {
                out.push(id.dup());
                assert(out@ =~= dedup_by(prefix, full_key(), Set::empty()).push(all@[k as int]));
            }
            k = k + 1;
        }
        assert(all@.take(total as int) =~= all@);
        out
    }

    /// The path of the runtime jar: the resolved game jar itself when there
    /// are no jarmods, else the recombined jar under `<game_dir>/bin`.
    pub fn get_jar(&self, game_jar_path: String, game_dir: &str) -> (r: String)
        ensures
            self.jarmods@.len() == 0 ==> r@ == game_jar_path@,
            self.jarmods@.len() > 0 ==> r@ == game_dir@ + "/bin/minecraft.jar"@,
    {
        if self.jarmods.len() == 0 {
            game_jar_path
        } else {
            let mut p: String = game_dir.to_owned();
            p.append("/bin/minecraft.jar");
            p
        }
    }
}

/// One asset object as the downloaded index declares it.
#[derive(Debug, Clone)]
pub struct Asset {
    pub hash: String,
    pub size: u32,
}

/// A parsed asset index: its layout flags and the named objects.
#[derive(Debug)]
pub struct AssetIndex {
    pub map_to_resources: bool,
    pub is_virtual: bool,
    pub objects: Vec<(String, Asset)>,
}

/// Where the asset index document lives: `<assets_dir>/indexes/<id>.json`.
pub fn asset_index_path(assets_dir: &str, id: &str) -> (r: String)
    ensures
        r@ == assets_dir@ + "/indexes/"@ + id@ + ".json"@,
{
    let mut p: String = assets_dir.to_owned();
    p.append("/indexes/");
    p.append(id);
    p.append(".json");
    p
}

/// The unpack target of an index: the `resources` directory when assets map
/// to resources, a per-index virtual directory when the layout is virtual,
/// and none otherwise (pool-only).
pub fn asset_unpack_dir(game_dir: &str, index_id: &str, map_to_resources: bool, is_virtual: bool) -> (r:
    Option<String>)
    ensures
        map_to_resources ==> (r matches Some(p) && p@ == game_dir@ + "/resources"@),
        !map_to_resources && is_virtual ==> (r matches Some(p) && p@ == game_dir@
            + "/assets/virtual/"@ + index_id@),
        !map_to_resources && !is_virtual ==> r is None,
{
    if map_to_resources {
        let mut p: String = game_dir.to_owned();
        p.append("/resources");
        Option::Some(p)
    } else if is_virtual {
        let mut p: String = game_dir.to_owned();
        p.append("/assets/virtual/");
        p.append(index_id);
        Option::Some(p)
    } else {
        Option::None
    }
}

/// One planned asset download: the content-addressed pool file, the CDN
/// URL, the declared size and SHA-1 digest, and the optional unpack copy.
#[derive(Debug)]
pub struct AssetAction {
    pub pool_path: String,
    pub url: String,
    pub size: u32,
    pub sha1: String,
    pub unpack_to: Option<String>,
}

/// The pool path of an object: `<assets_dir>/objects/<first 2 hash chars>/<hash>`.
pub open spec fn spec_asset_pool_path(assets_dir: Seq<char>, hash: Seq<char>) -> Seq<char> {
    assets_dir + "/objects/"@ + hash.take(2) + "/"@ + hash
}

/// The CDN URL of an object, templated with its hash.
pub open spec fn spec_asset_url(hash: Seq<char>) -> Seq<char> {
    "https://resources.download.minecraft.net/"@ + hash.take(2) + "/"@ + hash
}

/// The planned actions, or the first unsafe logical name when unpacking.
pub open spec fn spec_asset_plan(
    objects: Seq<(Seq<char>, Seq<char>, u32)>,
    assets_dir: Seq<char>,
    unpack: Option<Seq<char>>,
) -> Result<Seq<(Seq<char>, Seq<char>, u32, Seq<char>, Option<Seq<char>>)>, Seq<char>>
    decreases objects.len(),
{
    if objects.len() == 0 {
        Result::Ok(Seq::<(Seq<char>, Seq<char>, u32, Seq<char>, Option<Seq<char>>)>::empty())
    } else {
        let (name, hash, size) = objects[0];
        let unpack_to = match unpack {
            Option::None => Option::None,
            Option::Some(dir) => Option::Some(dir + "/"@ + name),
        };
        if unpack is Some && !spec_path_ok(name) {
            Result::Err(name)
        } else {
            match spec_asset_plan(objects.drop_first(), assets_dir, unpack) {
                Result::Err(e) => Result::Err(e),
                Result::Ok(rest) => Result::Ok(
                    seq![
                        (
                            spec_asset_pool_path(assets_dir, hash),
                            spec_asset_url(hash),
                            size,
                            hash,
                            unpack_to,
                        ),
                    ] + rest,
                ),
            }
        }
    }
}

/// The view of an asset object list.
pub open spec fn objects_view(objects: Seq<(String, Asset)>) -> Seq<(Seq<char>, Seq<char>, u32)> {
    objects.map_values(|o: (String, Asset)| (o.0@, o.1.hash@, o.1.size))
}

/// The view of a planned action.
pub open spec fn action_view(a: AssetAction) -> (
    Seq<char>,
    Seq<char>,
    u32,
    Seq<char>,
    Option<Seq<char>>,
) {
    (
        a.pool_path@,
        a.url@,
        a.size,
        a.sha1@,
        (match a.unpack_to {
            Option::None => Option::<Seq<char>>::None,
            Option::Some(p) => Option::Some(p@),
        }),
    )
}

pub open spec fn actions_view(actions: Seq<AssetAction>) -> Seq<
    (Seq<char>, Seq<char>, u32, Seq<char>, Option<Seq<char>>),
> {
    actions.map_values(|a: AssetAction| action_view(a))
}

fn asset_plan_from(
    objects: &Vec<(String, Asset)>,
    assets_dir: &str,
    unpack: &Option<String>,
    i: usize,
) -> (r: Result<Vec<AssetAction>, LaunchError>)
    requires
        i <= objects@.len(),
        forall|k: int| 0 <= k < objects@.len() ==> (#[trigger] objects@[k]).1.hash@.len() >= 2,
    ensures
        (match r {
            Result::Ok(actions) => spec_asset_plan(
                objects_view(objects@).skip(i as int),
                assets_dir@,
                (match unpack {
                    Option::None => Option::<Seq<char>>::None,
                    Option::Some(d) => Option::Some(d@),
                }),
            ) == Result::Ok::<
                Seq<(Seq<char>, Seq<char>, u32, Seq<char>, Option<Seq<char>>)>,
                Seq<char>,
            >(actions_view(actions@)),
            Result::Err(e) => e matches LaunchError::InvalidFilename { name } && spec_asset_plan(
                objects_view(objects@).skip(i as int),
                assets_dir@,
                (match unpack {
                    Option::None => Option::<Seq<char>>::None,
                    Option::Some(d) => Option::Some(d@),
                }),
            ) == Result::Err::<
                Seq<(Seq<char>, Seq<char>, u32, Seq<char>, Option<Seq<char>>)>,
                Seq<char>,
            >(name@),
        }),
    decreases objects@.len() - i,
{
    let ghost tail = objects_view(objects@).skip(i as int);
    if i == objects.len() {
        assert(tail =~= Seq::<(Seq<char>, Seq<char>, u32)>::empty());
        let out: Vec<AssetAction> = Vec::new();
        assert(actions_view(out@) =~= Seq::<
            (Seq<char>, Seq<char>, u32, Seq<char>, Option<Seq<char>>),
        >::empty());
        return Ok(out);
    }
    assert(tail[0] == objects_view(objects@)[i as int]);
    assert(tail.drop_first() =~= objects_view(objects@).skip(i as int + 1));
    let name = &objects[i].0;
    let hash = &objects[i].1.hash;
    let size = objects[i].1.size;
    let unpack_to: Option<String> = match unpack {
        Option::None => Option::None,
        Option::Some(dir) => {
            if !check_path(name.as_str()) {
                return Err(LaunchError::InvalidFilename { name: name.clone() });
            }
            let mut p = dir.clone();
            p.append("/");
            p.append(name.as_str());
            Option::Some(p)
        },
    };
    let hash_part = hash.as_str().substring_char(0, 2);
    let mut pool: String = assets_dir.to_owned();
    pool.append("/objects/");
    pool.append(hash_part);
    pool.append("/");
    pool.append(hash.as_str());
    assert(pool@ =~= spec_asset_pool_path(assets_dir@, hash@)) by {
        assert(hash@.subrange(0, 2) =~= hash@.take(2));
    };
    let mut url: String = "https://resources.download.minecraft.net/".to_owned();
    url.append(hash_part);
    url.append("/");
    url.append(hash.as_str());
    assert(url@ =~= spec_asset_url(hash@)) by {
        assert(hash@.subrange(0, 2) =~= hash@.take(2));
    };
    match asset_plan_from(objects, assets_dir, unpack, i + 1) {
        Err(e) => Err(e),
        Ok(mut rest) => {
            let ghost before = rest@;
            rest.insert(
                0,
                AssetAction { pool_path: pool, url, size, sha1: hash.clone(), unpack_to },
            );
            assert(actions_view(rest@) =~~= seq![action_view(rest@[0])] + actions_view(before));
            Ok(rest)
        },
    }
}

/// Plans the asset unpacking step: every object gets a verified download
/// into the content-addressed pool from the fixed resource CDN; when an
/// unpack target is set, each object is additionally copied to its logical
/// name under it, and every logical name must pass the path-safety rule.
/// The declared hashes key the pool, so each must carry at least its two
/// leading characters.
pub fn plan_asset_downloads(
    objects: &Vec<(String, Asset)>,
    assets_dir: &str,
    unpack: &Option<String>,
) -> (r: Result<Vec<AssetAction>, LaunchError>)
    requires
        forall|k: int| 0 <= k < objects@.len() ==> (#[trigger] objects@[k]).1.hash@.len() >= 2,
    ensures
        (match r {
            Result::Ok(actions) => spec_asset_plan(
                objects_view(objects@),
                assets_dir@,
                (match unpack {
                    Option::None => Option::<Seq<char>>::None,
                    Option::Some(d) => Option::Some(d@),
                }),
            ) == Result::Ok::<
                Seq<(Seq<char>, Seq<char>, u32, Seq<char>, Option<Seq<char>>)>,
                Seq<char>,
            >(actions_view(actions@)),
            Result::Err(e) => e matches LaunchError::InvalidFilename { name } && spec_asset_plan(
                objects_view(objects@),
                assets_dir@,
                (match unpack {
                    Option::None => Option::<Seq<char>>::None,
                    Option::Some(d) => Option::Some(d@),
                }),
            ) == Result::Err::<
                Seq<(Seq<char>, Seq<char>, u32, Seq<char>, Option<Seq<char>>)>,
                Seq<char>,
            >(name@),
        }),
{
    let r = asset_plan_from(objects, assets_dir, unpack, 0);
    assert(objects_view(objects@).skip(0) =~= objects_view(objects@));
    r
}

} // verus!
