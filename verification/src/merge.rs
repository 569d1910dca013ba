//! Merging an ordered list of components' metadata into one aggregate.
//! Merge order is the only semantically significant ordering: earlier
//! components win for singleton fields, first occurrences win for the
//! de-duplicated classpath, jarmod and artifact collections, and argument
//! order is preserved exactly.

use vstd::prelude::*;
use vstd::pervasive::unreached;

use crate::artifact::{Artifact, ArtifactId};
use crate::meta::{
    AssetsMeta,
    ComponentMeta,
    ConditionalClasspathEntry,
    DownloadEntry,
    MetaNative,
    MinecraftArgument,
    platform_matches,
    spec_platform_matches,
};
use crate::seqops::{
    concat_map,
    dedup_by,
    keys_of,
    lemma_concat_map_take_succ,
    lemma_dedup_by_keys,
    lemma_dedup_by_push,
    lemma_keys_of_contains,
};
use crate::strutil::{dup_strings, str_eq, strs};

verus! {

/// A native library required on the current platform, with the path
/// prefixes excluded from its extraction.
#[derive(Debug)]
pub struct Native {
    pub name: ArtifactId,
    pub exclusions: Vec<String>,
}

// The key and contribution functions below are each defined exactly once,
// so that every specification and proof speaks of the same function value.
pub open spec fn unv_key() -> spec_fn(ArtifactId) -> (Seq<char>, Seq<char>, Option<Seq<char>>, Seq<
    char,
>) {
    |id: ArtifactId| id.spec_key()
}

pub open spec fn dl_key() -> spec_fn(DownloadEntry) -> (
    Seq<char>,
    Seq<char>,
    Seq<char>,
    Option<Seq<char>>,
    Seq<char>,
) {
    |d: DownloadEntry| d.name.spec_id()
}

pub open spec fn sid_key() -> spec_fn(Seq<char>) -> Seq<char> {
    |t: Seq<char>| t
}

pub open spec fn pair_of_download() -> spec_fn(DownloadEntry) -> (ArtifactId, Artifact) {
    |d: DownloadEntry|
        (
            d.name,
            Artifact::Download { url: d.url, size: d.size, hash: d.hash },
        )
}

/// The view of a merged native entry: its artifact id and the views of its
/// exclusion prefixes.
pub open spec fn native_view() -> spec_fn(Native) -> (ArtifactId, Seq<Seq<char>>) {
    |n: Native| (n.name, strs(n.exclusions@))
}

pub open spec fn traits_of() -> spec_fn(ComponentMeta) -> Seq<Seq<char>> {
    |m: ComponentMeta| strs(m.traits@)
}

pub open spec fn args_of() -> spec_fn(ComponentMeta) -> Seq<MinecraftArgument> {
    |m: ComponentMeta| m.game_arguments@
}

pub open spec fn downloads_of() -> spec_fn(ComponentMeta) -> Seq<DownloadEntry> {
    |m: ComponentMeta| m.downloads@
}

/// What one classpath entry contributes on the given platform: its name if
/// applicable, nothing otherwise.
pub open spec fn spec_cp_entry(e: ConditionalClasspathEntry, arch: Seq<char>, os: Seq<char>) -> Seq<
    ArtifactId,
> {
    match e {
        ConditionalClasspathEntry::All(name) => seq![name],
        ConditionalClasspathEntry::PlatformSpecific { name, platform } => {
            if spec_platform_matches(platform, arch, os) {
                seq![name]
            } else {
                Seq::<ArtifactId>::empty()
            }
        },
    }
}

pub open spec fn cp_entry_names(arch: Seq<char>, os: Seq<char>) -> spec_fn(
    ConditionalClasspathEntry,
) -> Seq<ArtifactId> {
    |e: ConditionalClasspathEntry| spec_cp_entry(e, arch, os)
}

pub open spec fn cp_of(arch: Seq<char>, os: Seq<char>) -> spec_fn(ComponentMeta) -> Seq<
    ArtifactId,
> {
    |m: ComponentMeta| concat_map(m.classpath@, cp_entry_names(arch, os))
}

/// What one native entry contributes on the given platform.
pub open spec fn spec_native_entry(n: MetaNative, arch: Seq<char>, os: Seq<char>) -> Seq<
    (ArtifactId, Seq<Seq<char>>),
> {
    if spec_platform_matches(n.platform, arch, os) {
        seq![(n.name, strs(n.exclusions@))]
    } else {
        Seq::<(ArtifactId, Seq<Seq<char>>)>::empty()
    }
}

pub open spec fn native_entry_views(arch: Seq<char>, os: Seq<char>) -> spec_fn(MetaNative) -> Seq<
    (ArtifactId, Seq<Seq<char>>),
> {
    |n: MetaNative| spec_native_entry(n, arch, os)
}

pub open spec fn natives_of(arch: Seq<char>, os: Seq<char>) -> spec_fn(ComponentMeta) -> Seq<
    (ArtifactId, Seq<Seq<char>>),
> {
    |m: ComponentMeta| concat_map(m.natives@, native_entry_views(arch, os))
}

/// All trait flags of all components, in order, before de-duplication.
pub open spec fn spec_trait_stream(metas: Seq<ComponentMeta>) -> Seq<Seq<char>> {
    concat_map(metas, traits_of())
}

/// All applicable classpath names across components, in merge order.
pub open spec fn spec_cp_stream(metas: Seq<ComponentMeta>, arch: Seq<char>, os: Seq<char>) -> Seq<
    ArtifactId,
> {
    concat_map(metas, cp_of(arch, os))
}

/// All applicable native entries across components, in merge order.
pub open spec fn spec_native_stream(
    metas: Seq<ComponentMeta>,
    arch: Seq<char>,
    os: Seq<char>,
) -> Seq<(ArtifactId, Seq<Seq<char>>)> {
    concat_map(metas, natives_of(arch, os))
}

/// All declared downloads across components, in merge order.
pub open spec fn spec_download_stream(metas: Seq<ComponentMeta>) -> Seq<DownloadEntry> {
    concat_map(metas, downloads_of())
}

/// All game arguments across components, in merge order.
pub open spec fn spec_argument_stream(metas: Seq<ComponentMeta>) -> Seq<MinecraftArgument> {
    concat_map(metas, args_of())
}

/// The jarmods that take part in the merge: components contribute in
/// order, and contributions stop after the first component that defines a
/// game jar (that component itself still contributes).
pub open spec fn spec_jarmod_stream(metas: Seq<ComponentMeta>) -> Seq<ArtifactId>
    decreases metas.len(),
{
    if metas.len() == 0 {
        Seq::<ArtifactId>::empty()
    } else if metas[0].game_jar is Some {
        metas[0].jarmods@
    } else {
        metas[0].jarmods@ + spec_jarmod_stream(metas.drop_first())
    }
}

/// The first game jar defined in merge order.
pub open spec fn spec_first_game_jar(metas: Seq<ComponentMeta>) -> Option<ArtifactId>
    decreases metas.len(),
{
    if metas.len() == 0 {
        Option::None
    } else if metas[0].game_jar is Some {
        metas[0].game_jar
    } else {
        spec_first_game_jar(metas.drop_first())
    }
}

/// The first assets descriptor defined in merge order.
pub open spec fn spec_first_assets(metas: Seq<ComponentMeta>) -> Option<AssetsMeta>
    decreases metas.len(),
{
    if metas.len() == 0 {
        Option::None
    } else if metas[0].assets is Some {
        metas[0].assets
    } else {
        spec_first_assets(metas.drop_first())
    }
}

/// The first main class defined in merge order.
pub open spec fn spec_first_main_class(metas: Seq<ComponentMeta>) -> Option<String>
    decreases metas.len(),
{
    if metas.len() == 0 {
        Option::None
    } else if metas[0].main_class is Some {
        metas[0].main_class
    } else {
        spec_first_main_class(metas.drop_first())
    }
}

/// The merged classpath: first occurrence per unversioned identity wins.
pub open spec fn spec_merged_classpath(
    metas: Seq<ComponentMeta>,
    arch: Seq<char>,
    os: Seq<char>,
) -> Seq<ArtifactId> {
    dedup_by(spec_cp_stream(metas, arch, os), unv_key(), Set::empty())
}

/// The merged jarmod list: first occurrence per unversioned identity wins.
pub open spec fn spec_merged_jarmods(metas: Seq<ComponentMeta>) -> Seq<ArtifactId> {
    dedup_by(spec_jarmod_stream(metas), unv_key(), Set::empty())
}

/// The merged trait set, kept in first-seen order without duplicates.
pub open spec fn spec_merged_traits(metas: Seq<ComponentMeta>) -> Seq<Seq<char>> {
    dedup_by(spec_trait_stream(metas), sid_key(), Set::empty())
}

/// The merged artifact map: the first registration of each full identity
/// wins, letting an earlier component pin an artifact's source.
pub open spec fn spec_merged_artifacts(metas: Seq<ComponentMeta>) -> Seq<(ArtifactId, Artifact)> {
    dedup_by(spec_download_stream(metas), dl_key(), Set::empty()).map_values(pair_of_download())
}

proof fn lemma_first_game_jar_take_succ(metas: Seq<ComponentMeta>, j: int)
    requires
        0 <= j < metas.len(),
    ensures
        spec_first_game_jar(metas.take(j + 1)) == (if spec_first_game_jar(metas.take(j)) is Some {
            spec_first_game_jar(metas.take(j))
        } else {
            metas[j].game_jar
        }),
    decreases j,
{
    if j == 0 {
        assert(metas.take(0) =~= Seq::<ComponentMeta>::empty());
        assert(metas.take(1)[0] == metas[0]);
        assert(metas.take(1).drop_first() =~= Seq::<ComponentMeta>::empty());
    } else {
        lemma_first_game_jar_take_succ(metas.drop_first(), j - 1);
        assert(metas.take(j + 1).drop_first() =~= metas.drop_first().take(j));
        assert(metas.take(j).drop_first() =~= metas.drop_first().take(j - 1));
        assert(metas.take(j + 1)[0] == metas[0]);
        assert(metas.take(j)[0] == metas[0]);
        assert(metas.drop_first()[j - 1] == metas[j]);
    }
}

proof fn lemma_first_assets_take_succ(metas: Seq<ComponentMeta>, j: int)
    requires
        0 <= j < metas.len(),
    ensures
        spec_first_assets(metas.take(j + 1)) == (if spec_first_assets(metas.take(j)) is Some {
            spec_first_assets(metas.take(j))
        } else {
            metas[j].assets
        }),
    decreases j,
{
    if j == 0 {
        assert(metas.take(0) =~= Seq::<ComponentMeta>::empty());
        assert(metas.take(1)[0] == metas[0]);
        assert(metas.take(1).drop_first() =~= Seq::<ComponentMeta>::empty());
    } else {
        lemma_first_assets_take_succ(metas.drop_first(), j - 1);
        assert(metas.take(j + 1).drop_first() =~= metas.drop_first().take(j));
        assert(metas.take(j).drop_first() =~= metas.drop_first().take(j - 1));
        assert(metas.take(j + 1)[0] == metas[0]);
        assert(metas.take(j)[0] == metas[0]);
        assert(metas.drop_first()[j - 1] == metas[j]);
    }
}

proof fn lemma_first_main_class_take_succ(metas: Seq<ComponentMeta>, j: int)
    requires
        0 <= j < metas.len(),
    ensures
        spec_first_main_class(metas.take(j + 1)) == (if spec_first_main_class(
            metas.take(j),
        ) is Some {
            spec_first_main_class(metas.take(j))
        } else {
            metas[j].main_class
        }),
    decreases j,
{
    if j == 0 {
        assert(metas.take(0) =~= Seq::<ComponentMeta>::empty());
        assert(metas.take(1)[0] == metas[0]);
        assert(metas.take(1).drop_first() =~= Seq::<ComponentMeta>::empty());
    } else {
        lemma_first_main_class_take_succ(metas.drop_first(), j - 1);
        assert(metas.take(j + 1).drop_first() =~= metas.drop_first().take(j));
        assert(metas.take(j).drop_first() =~= metas.drop_first().take(j - 1));
        assert(metas.take(j + 1)[0] == metas[0]);
        assert(metas.take(j)[0] == metas[0]);
        assert(metas.drop_first()[j - 1] == metas[j]);
    }
}

proof fn lemma_jarmod_stream_take_succ(metas: Seq<ComponentMeta>, j: int)
    requires
        0 <= j < metas.len(),
        spec_first_game_jar(metas.take(j)) is None,
    ensures
        spec_jarmod_stream(metas.take(j + 1)) == spec_jarmod_stream(metas.take(j))
            + metas[j].jarmods@,
    decreases j,
{
    if j == 0 {
        assert(metas.take(0) =~= Seq::<ComponentMeta>::empty());
        assert(metas.take(1)[0] == metas[0]);
        assert(metas.take(1).drop_first() =~= Seq::<ComponentMeta>::empty());
        assert(Seq::<ArtifactId>::empty() + metas[0].jarmods@ =~= metas[0].jarmods@);
        if metas[0].game_jar is Some {
            assert(spec_jarmod_stream(metas.take(1)) == metas[0].jarmods@);
        } else {
            assert(spec_jarmod_stream(Seq::<ComponentMeta>::empty())
                == Seq::<ArtifactId>::empty());
            assert(metas[0].jarmods@ + Seq::<ArtifactId>::empty() =~= metas[0].jarmods@);
        }
    } else {
        assert(metas.take(j)[0] == metas[0]);
        assert(metas.take(j).drop_first() =~= metas.drop_first().take(j - 1));
        assert(metas.take(j + 1)[0] == metas[0]);
        assert(metas.take(j + 1).drop_first() =~= metas.drop_first().take(j));
        assert(metas[0].game_jar is None);
        assert(spec_first_game_jar(metas.drop_first().take(j - 1)) is None);
        lemma_jarmod_stream_take_succ(metas.drop_first(), j - 1);
        assert(metas.drop_first()[j - 1] == metas[j]);
        assert(metas[0].jarmods@ + (spec_jarmod_stream(metas.drop_first().take(j - 1))
            + metas[j].jarmods@) =~= (metas[0].jarmods@ + spec_jarmod_stream(
            metas.drop_first().take(j - 1),
        )) + metas[j].jarmods@);
    }
}

/// When a game jar is already fixed, later components contribute no
/// jarmods.
proof fn lemma_jarmod_stream_take_succ_fixed(metas: Seq<ComponentMeta>, j: int)
    requires
        0 <= j < metas.len(),
        spec_first_game_jar(metas.take(j)) is Some,
    ensures
        spec_jarmod_stream(metas.take(j + 1)) == spec_jarmod_stream(metas.take(j)),
    decreases j,
{
    if j == 0 {
        assert(metas.take(0) =~= Seq::<ComponentMeta>::empty());
    } else {
        assert(metas.take(j)[0] == metas[0]);
        assert(metas.take(j).drop_first() =~= metas.drop_first().take(j - 1));
        assert(metas.take(j + 1)[0] == metas[0]);
        assert(metas.take(j + 1).drop_first() =~= metas.drop_first().take(j));
        if metas[0].game_jar is Some {
            assert(spec_jarmod_stream(metas.take(j + 1)) == metas[0].jarmods@);
            assert(spec_jarmod_stream(metas.take(j)) == metas[0].jarmods@);
        } else {
            lemma_jarmod_stream_take_succ_fixed(metas.drop_first(), j - 1);
        }
    }
}

fn contains_unv(v: &Vec<ArtifactId>, id: &ArtifactId) -> (r: bool)
    ensures
        r == keys_of(v@, unv_key()).contains(id.spec_key()),
{
    let n = v.len();
    let mut i: usize = 0;
    let mut found = false;
    while i < n
        invariant
            n == v@.len(),
            i <= n,
            found == exists|l: int| 0 <= l < i && v@[l].spec_key() == id.spec_key(),
        decreases n - i,
    {
        if v[i].same_unversioned(id) {
            found = true;
        }
        i = i + 1;
    }
    proof {
        lemma_keys_of_contains(v@, unv_key(), id.spec_key());
    }
    found
}

fn contains_str_view(v: &Vec<String>, t: &str) -> (r: bool)
    ensures
        r == keys_of(strs(v@), sid_key()).contains(t@),
{
    let n = v.len();
    let mut i: usize = 0;
    let mut found = false;
    while i < n
        invariant
            n == v@.len(),
            i <= n,
            found == exists|l: int| 0 <= l < i && v@[l]@ == t@,
        decreases n - i,
    {
        if str_eq(v[i].as_str(), t) {
            found = true;
        }
        i = i + 1;
    }
    proof {
        lemma_keys_of_contains(strs(v@), sid_key(), t@);
        let f = sid_key();
        if found {
            let l = choose|l: int| 0 <= l < v@.len() && v@[l]@ == t@;
            assert(f(strs(v@)[l]) == t@);
        }
        if keys_of(strs(v@), sid_key()).contains(t@) {
            let l = choose|l: int| 0 <= l < strs(v@).len() && f(strs(v@)[l]) == t@;
            assert(v@[l]@ == t@);
        }
    }
    found
}

fn contains_pair_id(v: &Vec<(ArtifactId, Artifact)>, id: &ArtifactId) -> (r: bool)
    ensures
        r == exists|l: int| 0 <= l < v@.len() && v@[l].0.spec_id() == id.spec_id(),
{
    let n = v.len();
    let mut i: usize = 0;
    let mut found = false;
    while i < n
        invariant
            n == v@.len(),
            i <= n,
            found == exists|l: int| 0 <= l < i && v@[l].0.spec_id() == id.spec_id(),
        decreases n - i,
    {
        if v[i].0.same_id(id) {
            found = true;
        }
        i = i + 1;
    }
    found
}

fn collect_traits(metas: &Vec<ComponentMeta>) -> (r: Vec<String>)
    ensures
        strs(r@) == spec_merged_traits(metas@),
{
    let mut tr: Vec<String> = Vec::new();
    let n = metas.len();
    let mut i: usize = 0;
    while i < n
        invariant
            n == metas@.len(),
            i <= n,
            strs(tr@) == dedup_by(spec_trait_stream(metas@.take(i as int)), sid_key(), Set::empty()),
        decreases n - i,
    {
        let m = &metas[i];
        let k = m.traits.len();
        let mut j: usize = 0;
        while j < k
            invariant
                n == metas@.len(),
                i < n,
                k == metas@[i as int].traits@.len(),
                j <= k,
                strs(tr@) == dedup_by(
                    spec_trait_stream(metas@.take(i as int)) + strs(
                        metas@[i as int].traits@.take(j as int),
                    ),
                    sid_key(),
                    Set::empty(),
                ),
            decreases k - j,
        {
            let ghost stream = spec_trait_stream(metas@.take(i as int)) + strs(
                metas@[i as int].traits@.take(j as int),
            );
            let t = &metas[i].traits[j];
            let present = contains_str_view(&tr, t.as_str());
            proof {
                lemma_dedup_by_keys(stream, sid_key(), Set::empty());
                lemma_dedup_by_push(stream, t@, sid_key(), Set::empty());
                assert(Set::<Seq<char>>::empty().union(keys_of(stream, sid_key()))
                    =~= keys_of(stream, sid_key()));
                assert(stream.push(t@) =~= spec_trait_stream(metas@.take(i as int)) + strs(
                    metas@[i as int].traits@.take(j as int + 1),
                )) by {
                    assert(strs(metas@[i as int].traits@.take(j as int + 1)) =~= strs(
                        metas@[i as int].traits@.take(j as int),
                    ).push(metas@[i as int].traits@[j as int]@));
                };
            }
            if !present {
                tr.push(t.clone());
                assert(strs(tr@) =~= dedup_by(stream, sid_key(), Set::empty()).push(t@));
            }
            j = j + 1;
        }
        proof {
            assert(strs(metas@[i as int].traits@.take(k as int)) =~= strs(
                metas@[i as int].traits@,
            ));
            lemma_concat_map_take_succ(metas@, traits_of(), i as int);
        }
        i = i + 1;
    }
    proof {
        assert(metas@.take(n as int) =~= metas@);
    }
    tr
}

fn collect_classpath(metas: &Vec<ComponentMeta>, current_arch: &str, current_os: &str) -> (r: Vec<
    ArtifactId,
>)
    ensures
        r@ == spec_merged_classpath(metas@, current_arch@, current_os@),
{
    let ghost arch = current_arch@;
    let ghost os = current_os@;
    let mut cp: Vec<ArtifactId> = Vec::new();
    let n = metas.len();
    let mut i: usize = 0;
    while i < n
        invariant
            n == metas@.len(),
            i <= n,
            arch == current_arch@,
            os == current_os@,
            cp@ == dedup_by(spec_cp_stream(metas@.take(i as int), arch, os), unv_key(), Set::empty()),
        decreases n - i,
    {
        let k = metas[i].classpath.len();
        let mut j: usize = 0;
        while j < k
            invariant
                n == metas@.len(),
                i < n,
                arch == current_arch@,
                os == current_os@,
                k == metas@[i as int].classpath@.len(),
                j <= k,
                cp@ == dedup_by(
                    spec_cp_stream(metas@.take(i as int), arch, os) + concat_map(
                        metas@[i as int].classpath@.take(j as int),
                        cp_entry_names(arch, os),
                    ),
                    unv_key(),
                    Set::empty(),
                ),
            decreases k - j,
        {
            let ghost stream = spec_cp_stream(metas@.take(i as int), arch, os) + concat_map(
                metas@[i as int].classpath@.take(j as int),
                cp_entry_names(arch, os),
            );
            proof {
                lemma_concat_map_take_succ(
                    metas@[i as int].classpath@,
                    cp_entry_names(arch, os),
                    j as int,
                );
            }
            let entry = &metas[i].classpath[j];
            let applicable: Option<&ArtifactId> = match entry {
                ConditionalClasspathEntry::All(name) => Option::Some(name),
                ConditionalClasspathEntry::PlatformSpecific { name, platform } => {
                    if platform_matches(platform, current_arch, current_os) {
                        Option::Some(name)
                    } else {
                        Option::None
                    }
                },
            };
            match applicable {
                Option::Some(name) => {
                    assert(spec_cp_entry(metas@[i as int].classpath@[j as int], arch, os)
                        =~= seq![*name]);
                    let present = contains_unv(&cp, name);
                    proof {
                        lemma_dedup_by_keys(stream, unv_key(), Set::empty());
                        lemma_dedup_by_push(stream, *name, unv_key(), Set::empty());
                        assert(Set::<(Seq<char>, Seq<char>, Option<Seq<char>>, Seq<
                            char,
                        >)>::empty().union(keys_of(stream, unv_key())) =~= keys_of(
                            stream,
                            unv_key(),
                        ));
                        assert(stream + spec_cp_entry(metas@[i as int].classpath@[j as int], arch, os)
                            =~= stream.push(*name));
                        assert(stream.push(*name) =~= spec_cp_stream(metas@.take(i as int), arch, os)
                            + concat_map(
                            metas@[i as int].classpath@.take(j as int + 1),
                            cp_entry_names(arch, os),
                        ));
                    }
                    if !present {
                        cp.push(name.dup());
                        assert(cp@ =~= dedup_by(stream, unv_key(), Set::empty()).push(*name));
                    }
                },
                Option::None => {
                    assert(spec_cp_entry(metas@[i as int].classpath@[j as int], arch, os)
                        =~= Seq::<ArtifactId>::empty());
                    assert(stream =~= spec_cp_stream(metas@.take(i as int), arch, os) + concat_map(
                        metas@[i as int].classpath@.take(j as int + 1),
                        cp_entry_names(arch, os),
                    ));
                },
            }
            j = j + 1;
        }
        proof {
            assert(metas@[i as int].classpath@.take(k as int) =~= metas@[i as int].classpath@);
            lemma_concat_map_take_succ(metas@, cp_of(arch, os), i as int);
        }
        i = i + 1;
    }
    proof {
        assert(metas@.take(n as int) =~= metas@);
    }
    cp
}

fn collect_jarmods(metas: &Vec<ComponentMeta>) -> (r: Vec<ArtifactId>)
    ensures
        r@ == spec_merged_jarmods(metas@),
{
    let mut jm: Vec<ArtifactId> = Vec::new();
    let mut game_jar_fixed = false;
    let n = metas.len();
    let mut i: usize = 0;
    while i < n
        invariant
            n == metas@.len(),
            i <= n,
            game_jar_fixed == (spec_first_game_jar(metas@.take(i as int)) is Some),
            jm@ == dedup_by(spec_jarmod_stream(metas@.take(i as int)), unv_key(), Set::empty()),
        decreases n - i,
    {
        if !game_jar_fixed {
            let k = metas[i].jarmods.len();
            let mut j: usize = 0;
            while j < k
                invariant
                    n == metas@.len(),
                    i < n,
                    spec_first_game_jar(metas@.take(i as int)) is None,
                    k == metas@[i as int].jarmods@.len(),
                    j <= k,
                    jm@ == dedup_by(
                        spec_jarmod_stream(metas@.take(i as int))
                            + metas@[i as int].jarmods@.take(j as int),
                        unv_key(),
                        Set::empty(),
                    ),
                decreases k - j,
            {
                let ghost stream = spec_jarmod_stream(metas@.take(i as int))
                    + metas@[i as int].jarmods@.take(j as int);
                let name = &metas[i].jarmods[j];
                let present = contains_unv(&jm, name);
                proof {
                    lemma_dedup_by_keys(stream, unv_key(), Set::empty());
                    lemma_dedup_by_push(stream, *name, unv_key(), Set::empty());
                    assert(Set::<(Seq<char>, Seq<char>, Option<Seq<char>>, Seq<
                        char,
                    >)>::empty().union(keys_of(stream, unv_key())) =~= keys_of(
                        stream,
                        unv_key(),
                    ));
                    assert(stream.push(*name) =~= spec_jarmod_stream(metas@.take(i as int))
                        + metas@[i as int].jarmods@.take(j as int + 1)) by {
                        assert(metas@[i as int].jarmods@.take(j as int + 1)
                            =~= metas@[i as int].jarmods@.take(j as int).push(
                            metas@[i as int].jarmods@[j as int],
                        ));
                    };
                }
                if !present {
                    jm.push(name.dup());
                }
                j = j + 1;
            }
            proof {
                assert(metas@[i as int].jarmods@.take(k as int) =~= metas@[i as int].jarmods@);
                lemma_jarmod_stream_take_succ(metas@, i as int);
            }
        } else {
            proof {
                lemma_jarmod_stream_take_succ_fixed(metas@, i as int);
            }
        }
        if metas[i].game_jar.is_some() {
            game_jar_fixed = true;
        }
        proof {
            lemma_first_game_jar_take_succ(metas@, i as int);
        }
        i = i + 1;
    }
    proof {
        assert(metas@.take(n as int) =~= metas@);
    }
    jm
}

fn collect_artifacts(metas: &Vec<ComponentMeta>) -> (r: Vec<(ArtifactId, Artifact)>)
    ensures
        r@ == spec_merged_artifacts(metas@),
{
    let mut arts: Vec<(ArtifactId, Artifact)> = Vec::new();
    let n = metas.len();
    let mut i: usize = 0;
    while i < n
        invariant
            n == metas@.len(),
            i <= n,
            arts@ == dedup_by(
                spec_download_stream(metas@.take(i as int)),
                dl_key(),
                Set::empty(),
            ).map_values(pair_of_download()),
        decreases n - i,
    {
        let k = metas[i].downloads.len();
        let mut j: usize = 0;
        while j < k
            invariant
                n == metas@.len(),
                i < n,
                k == metas@[i as int].downloads@.len(),
                j <= k,
                arts@ == dedup_by(
                    spec_download_stream(metas@.take(i as int))
                        + metas@[i as int].downloads@.take(j as int),
                    dl_key(),
                    Set::empty(),
                ).map_values(pair_of_download()),
            decreases k - j,
        {
            let ghost stream = spec_download_stream(metas@.take(i as int))
                + metas@[i as int].downloads@.take(j as int);
            let ghost kept = dedup_by(stream, dl_key(), Set::empty());
            let d = &metas[i].downloads[j];
            let present = contains_pair_id(&arts, &d.name);
            proof {
                lemma_dedup_by_keys(stream, dl_key(), Set::empty());
                lemma_dedup_by_push(stream, *d, dl_key(), Set::empty());
                lemma_keys_of_contains(stream, dl_key(), d.name.spec_id());
                lemma_keys_of_contains(kept, dl_key(), d.name.spec_id());
                assert(Set::<(Seq<char>, Seq<char>, Seq<char>, Option<Seq<char>>, Seq<
                    char,
                >)>::empty().union(keys_of(stream, dl_key())) =~= keys_of(stream, dl_key()));
                // The scan over the pair list sees exactly the keys of the
                // de-duplicated download list.
                let f = dl_key();
                let g = pair_of_download();
                if present {
                    let l = choose|l: int|
                        0 <= l < arts@.len() && arts@[l].0.spec_id() == d.name.spec_id();
                    assert(arts@[l] == g(kept[l]));
                    assert(f(kept[l]) == d.name.spec_id());
                }
                if keys_of(kept, dl_key()).contains(d.name.spec_id()) {
                    let l = choose|l: int| 0 <= l < kept.len() && f(kept[l]) == d.name.spec_id();
                    assert(arts@[l] == g(kept[l]));
                    assert(arts@[l].0.spec_id() == d.name.spec_id());
                }
                assert(present == keys_of(kept, dl_key()).contains(d.name.spec_id()));
                assert(stream.push(*d) =~= spec_download_stream(metas@.take(i as int))
                    + metas@[i as int].downloads@.take(j as int + 1)) by {
                    assert(metas@[i as int].downloads@.take(j as int + 1)
                        =~= metas@[i as int].downloads@.take(j as int).push(
                        metas@[i as int].downloads@[j as int],
                    ));
                };
            }
            if !present {
                arts.push(
                    (
                        d.name.dup(),
                        Artifact::Download {
                            url: d.url.clone(),
                            size: d.size,
                            hash: d.hash.dup(),
                        },
                    ),
                );
                assert(arts@ =~= kept.push(*d).map_values(pair_of_download())) by {
                    assert(kept.push(*d).map_values(pair_of_download())
                        =~= kept.map_values(pair_of_download()).push(pair_of_download()(*d)));
                };
            }
            j = j + 1;
        }
        proof {
            assert(metas@[i as int].downloads@.take(k as int) =~= metas@[i as int].downloads@);
            lemma_concat_map_take_succ(metas@, downloads_of(), i as int);
        }
        i = i + 1;
    }
    proof {
        assert(metas@.take(n as int) =~= metas@);
    }
    arts
}

fn collect_natives(metas: &Vec<ComponentMeta>, current_arch: &str, current_os: &str) -> (r: Vec<
    Native,
>)
    ensures
        r@.map_values(native_view()) == spec_native_stream(metas@, current_arch@, current_os@),
{
    let ghost arch = current_arch@;
    let ghost os = current_os@;
    let mut natives_out: Vec<Native> = Vec::new();
    let n = metas.len();
    let mut i: usize = 0;
    while i < n
        invariant
            n == metas@.len(),
            i <= n,
            arch == current_arch@,
            os == current_os@,
            natives_out@.map_values(native_view()) == spec_native_stream(metas@.take(i as int), arch, os),
        decreases n - i,
    {
        let k = metas[i].natives.len();
        let mut j: usize = 0;
        while j < k
            invariant
                n == metas@.len(),
                i < n,
                arch == current_arch@,
                os == current_os@,
                k == metas@[i as int].natives@.len(),
                j <= k,
                natives_out@.map_values(native_view()) == spec_native_stream(metas@.take(i as int), arch, os)
                    + concat_map(
                    metas@[i as int].natives@.take(j as int),
                    native_entry_views(arch, os),
                ),
            decreases k - j,
        {
            proof {
                lemma_concat_map_take_succ(
                    metas@[i as int].natives@,
                    native_entry_views(arch, os),
                    j as int,
                );
            }
            let entry = &metas[i].natives[j];
            if platform_matches(&entry.platform, current_arch, current_os) {
                natives_out.push(Native { name: entry.name.dup(), exclusions: dup_strings(&entry.exclusions) });
                assert(natives_out@.map_values(native_view()) =~= spec_native_stream(
                    metas@.take(i as int),
                    arch,
                    os,
                ) + concat_map(
                    metas@[i as int].natives@.take(j as int),
                    native_entry_views(arch, os),
                ) + spec_native_entry(metas@[i as int].natives@[j as int], arch, os)) by {
                    assert(natives_out@.map_values(native_view()) =~= natives_out@.drop_last().map_values(
                        native_view(),
                    ).push(native_view()(natives_out@.last())));
                };
            } else {
                assert(spec_native_entry(metas@[i as int].natives@[j as int], arch, os)
                    =~= Seq::<(ArtifactId, Seq<Seq<char>>)>::empty());
            }
            assert(natives_out@.map_values(native_view()) =~= spec_native_stream(
                metas@.take(i as int),
                arch,
                os,
            ) + concat_map(
                metas@[i as int].natives@.take(j as int + 1),
                native_entry_views(arch, os),
            ));
            j = j + 1;
        }
        proof {
            assert(metas@[i as int].natives@.take(k as int) =~= metas@[i as int].natives@);
            lemma_concat_map_take_succ(metas@, natives_of(arch, os), i as int);
        }
        i = i + 1;
    }
    proof {
        assert(metas@.take(n as int) =~= metas@);
    }
    natives_out
}

fn collect_arguments(metas: &Vec<ComponentMeta>) -> (r: Vec<MinecraftArgument>)
    ensures
        r@ == spec_argument_stream(metas@),
{
    let mut args: Vec<MinecraftArgument> = Vec::new();
    let n = metas.len();
    let mut i: usize = 0;
    while i < n
        invariant
            n == metas@.len(),
            i <= n,
            args@ == spec_argument_stream(metas@.take(i as int)),
        decreases n - i,
    {
        let k = metas[i].game_arguments.len();
        let mut j: usize = 0;
        while j < k
            invariant
                n == metas@.len(),
                i < n,
                k == metas@[i as int].game_arguments@.len(),
                j <= k,
                args@ == spec_argument_stream(metas@.take(i as int))
                    + metas@[i as int].game_arguments@.take(j as int),
            decreases k - j,
        {
            args.push(metas[i].game_arguments[j].dup());
            assert(args@ =~= spec_argument_stream(metas@.take(i as int))
                + metas@[i as int].game_arguments@.take(j as int + 1)) by {
                assert(metas@[i as int].game_arguments@.take(j as int + 1)
                    =~= metas@[i as int].game_arguments@.take(j as int).push(
                    metas@[i as int].game_arguments@[j as int],
                ));
            };
            j = j + 1;
        }
        proof {
            assert(metas@[i as int].game_arguments@.take(k as int)
                =~= metas@[i as int].game_arguments@);
            lemma_concat_map_take_succ(metas@, args_of(), i as int);
        }
        i = i + 1;
    }
    proof {
        assert(metas@.take(n as int) =~= metas@);
    }
    args
}

fn first_game_jar(metas: &Vec<ComponentMeta>) -> (r: Option<ArtifactId>)
    ensures
        r == spec_first_game_jar(metas@),
{
    let mut r: Option<ArtifactId> = Option::None;
    let n = metas.len();
    let mut i: usize = 0;
    while i < n
        invariant
            n == metas@.len(),
            i <= n,
            r == spec_first_game_jar(metas@.take(i as int)),
        decreases n - i,
    {
        proof {
            lemma_first_game_jar_take_succ(metas@, i as int);
        }
        if r.is_none() {
            r = match &metas[i].game_jar {
                Option::Some(g) => Option::Some(g.dup()),
                Option::None => Option::None,
            };
        }
        i = i + 1;
    }
    proof {
        assert(metas@.take(n as int) =~= metas@);
    }
    r
}

fn first_assets(metas: &Vec<ComponentMeta>) -> (r: Option<AssetsMeta>)
    ensures
        r == spec_first_assets(metas@),
{
    let mut r: Option<AssetsMeta> = Option::None;
    let n = metas.len();
    let mut i: usize = 0;
    while i < n
        invariant
            n == metas@.len(),
            i <= n,
            r == spec_first_assets(metas@.take(i as int)),
        decreases n - i,
    {
        proof {
            lemma_first_assets_take_succ(metas@, i as int);
        }
        if r.is_none() {
            r = match &metas[i].assets {
                Option::Some(a) => Option::Some(a.dup()),
                Option::None => Option::None,
            };
        }
        i = i + 1;
    }
    proof {
        assert(metas@.take(n as int) =~= metas@);
    }
    r
}

fn first_main_class(metas: &Vec<ComponentMeta>) -> (r: Option<String>)
    ensures
        r == spec_first_main_class(metas@),
{
    let mut r: Option<String> = Option::None;
    let n = metas.len();
    let mut i: usize = 0;
    while i < n
        invariant
            n == metas@.len(),
            i <= n,
            r == spec_first_main_class(metas@.take(i as int)),
        decreases n - i,
    {
        proof {
            lemma_first_main_class_take_succ(metas@, i as int);
        }
        if r.is_none() {
            r = match &metas[i].main_class {
                Option::Some(c) => Option::Some(c.clone()),
                Option::None => Option::None,
            };
        }
        i = i + 1;
    }
    proof {
        assert(metas@.take(n as int) =~= metas@);
    }
    r
}

/// Everything the merge of an ordered component list produces.
#[derive(Debug)]
pub struct MergedComponents {
    pub classpath: Vec<ArtifactId>,
    pub natives: Vec<Native>,
    pub artifacts: Vec<(ArtifactId, Artifact)>,
    pub traits: Vec<String>,
    pub assets: Option<AssetsMeta>,
    pub game_jar: ArtifactId,
    pub jarmods: Vec<ArtifactId>,
    pub main_class: String,
    pub arguments: Vec<MinecraftArgument>,
}

impl MergedComponents {
    /// Whether the merged traits include the capability flag.
    pub fn has_trait(&self, check: &str) -> (r: bool)
        ensures
            r == strs(self.traits@).contains(check@),
    {
        let present = contains_str_view(&self.traits, check);
        proof {
            lemma_keys_of_contains(strs(self.traits@), sid_key(), check@);
        }
        present
    }
}

/// Merges the ordered components' metadata into one aggregate, under the
/// platform named by `current_arch` and `current_os`. Some component must
/// define a game jar and some component a main class.
pub fn merge_components(
    metas: &Vec<ComponentMeta>,
    current_arch: &str,
    current_os: &str,
) -> (r: MergedComponents)
    requires
        spec_first_game_jar(metas@) is Some,
        spec_first_main_class(metas@) is Some,
    ensures
        r.classpath@ == spec_merged_classpath(metas@, current_arch@, current_os@),
        r.natives@.map_values(native_view()) == spec_native_stream(
            metas@,
            current_arch@,
            current_os@,
        ),
        r.artifacts@ == spec_merged_artifacts(metas@),
        strs(r.traits@) == spec_merged_traits(metas@),
        r.assets == spec_first_assets(metas@),
        Option::Some(r.game_jar) == spec_first_game_jar(metas@),
        r.jarmods@ == spec_merged_jarmods(metas@),
        Option::Some(r.main_class) == spec_first_main_class(metas@),
        r.arguments@ == spec_argument_stream(metas@),
{
    let game_jar = match first_game_jar(metas) {
        Option::Some(g) => g,
        Option::None => unreached(),
    };
    let main_class = match first_main_class(metas) {
        Option::Some(c) => c,
        Option::None => unreached(),
    };
    MergedComponents {
        classpath: collect_classpath(metas, current_arch, current_os),
        natives: collect_natives(metas, current_arch, current_os),
        artifacts: collect_artifacts(metas),
        traits: collect_traits(metas),
        assets: first_assets(metas),
        game_jar,
        jarmods: collect_jarmods(metas),
        main_class,
        arguments: collect_arguments(metas),
    }
}

} // verus!
