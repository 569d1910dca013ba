//! Properties that relate the merge model's parts, stated and proved once
//! for every input.

use vstd::prelude::*;

use crate::merge::{
    spec_cp_stream,
    spec_first_main_class,
    spec_merged_classpath,
    spec_merged_traits,
    spec_trait_stream,
    unv_key,
    sid_key,
};
use crate::meta::{ComponentMeta, ConditionFeature, MinecraftArgument};
use crate::prepared::{arg_values, spec_arg_contribution, spec_feature_active, spec_filtered_args};
use crate::seqops::{
    dedup_by,
    keys_of,
    lemma_concat_map_contains,
    lemma_dedup_by_first_wins,
    lemma_dedup_by_keys,
    lemma_keys_of_contains,
};
use crate::ziputil::{jar_key, jar_stream_upto, spec_jar_merge_plan};

verus! {

/// Law: when two components both define a main class, merging takes the
/// first one's — merging `[a, b]` yields `a`'s class, merging `[b, a]`
/// yields `b`'s.
pub proof fn lemma_main_class_first_wins(a: ComponentMeta, b: ComponentMeta)
    requires
        a.main_class is Some,
        b.main_class is Some,
    ensures
        spec_first_main_class(seq![a, b]) == a.main_class,
        spec_first_main_class(seq![b, a]) == b.main_class,
{
    assert(seq![a, b][0] == a);
    assert(seq![b, a][0] == b);
}

/// Law: the merged classpath carries pairwise distinct unversioned
/// identities; each of its entries is the first applicable classpath entry
/// with that identity across the components, in the caller's order (so the
/// first-processed component's version wins); and every applicable entry's
/// identity is represented.
pub proof fn lemma_classpath_dedup_first_wins(
    metas: Seq<ComponentMeta>,
    arch: Seq<char>,
    os: Seq<char>,
)
    ensures
        forall|l1: int, l2: int|
            0 <= l1 < l2 < spec_merged_classpath(metas, arch, os).len() ==> (
            #[trigger] spec_merged_classpath(metas, arch, os)[l1]).spec_key() != (
            #[trigger] spec_merged_classpath(metas, arch, os)[l2]).spec_key(),
        forall|l: int|
            0 <= l < spec_merged_classpath(metas, arch, os).len() ==> exists|m: int|
                {
                    &&& 0 <= m < spec_cp_stream(metas, arch, os).len()
                    &&& spec_cp_stream(metas, arch, os)[m] == #[trigger] spec_merged_classpath(
                        metas,
                        arch,
                        os,
                    )[l]
                    &&& forall|m2: int|
                        0 <= m2 < m ==> (#[trigger] spec_cp_stream(metas, arch, os)[m2]).spec_key()
                            != spec_cp_stream(metas, arch, os)[m].spec_key()
                },
        forall|m: int|
            0 <= m < spec_cp_stream(metas, arch, os).len() ==> exists|l: int|
                0 <= l < spec_merged_classpath(metas, arch, os).len() && (
                #[trigger] spec_cp_stream(metas, arch, os)[m]).spec_key()
                    == spec_merged_classpath(metas, arch, os)[l].spec_key(),
{
    let stream = spec_cp_stream(metas, arch, os);
    let merged = spec_merged_classpath(metas, arch, os);
    let f = unv_key();
    lemma_dedup_by_first_wins(stream, f, Set::empty());
    lemma_dedup_by_keys(stream, f, Set::empty());
    assert forall|m: int| 0 <= m < stream.len() implies exists|l: int|
        0 <= l < merged.len() && (#[trigger] stream[m]).spec_key() == merged[l].spec_key() by {
        lemma_keys_of_contains(stream, f, f(stream[m]));
        assert(keys_of(stream, f).contains(f(stream[m])));
        assert(keys_of(merged, f).contains(f(stream[m])));
        lemma_keys_of_contains(merged, f, f(stream[m]));
        let l = choose|l: int| 0 <= l < merged.len() && f(merged[l]) == f(stream[m]);
        assert(merged[l].spec_key() == stream[m].spec_key());
    };
}

/// Law: the merged trait list is duplicate-free and carries exactly the
/// union of the components' trait sets.
pub proof fn lemma_traits_union(metas: Seq<ComponentMeta>)
    ensures
        forall|l1: int, l2: int|
            0 <= l1 < l2 < spec_merged_traits(metas).len() ==> #[trigger] spec_merged_traits(
                metas,
            )[l1] != #[trigger] spec_merged_traits(metas)[l2],
        forall|t: Seq<char>|
            spec_merged_traits(metas).contains(t) <==> spec_trait_stream(metas).contains(t),
{
    let stream = spec_trait_stream(metas);
    let merged = spec_merged_traits(metas);
    let f = sid_key();
    lemma_dedup_by_first_wins(stream, f, Set::empty());
    lemma_dedup_by_keys(stream, f, Set::empty());
    assert forall|l1: int, l2: int| 0 <= l1 < l2 < merged.len() implies #[trigger] merged[l1]
        != #[trigger] merged[l2] by {
        assert(f(merged[l1]) != f(merged[l2]));
    };
    assert forall|t: Seq<char>| merged.contains(t) <==> stream.contains(t) by {
        lemma_keys_of_contains(stream, f, t);
        lemma_keys_of_contains(merged, f, t);
        if merged.contains(t) {
            let l = choose|l: int| 0 <= l < merged.len() && merged[l] == t;
            assert(f(merged[l]) == t);
        }
        if stream.contains(t) {
            let m = choose|m: int| 0 <= m < stream.len() && stream[m] == t;
            assert(f(stream[m]) == t);
            assert(keys_of(merged, f).contains(t));
            let l = choose|l: int| 0 <= l < merged.len() && f(merged[l]) == t;
            assert(merged[l] == t);
        }
    };
}

/// Law: the jar recombination plan copies, for every entry name, exactly
/// its first occurrence over the jarmods in merge order — an earlier
/// jarmod's file wins a name collision, and a file unique to a later
/// jarmod survives.
pub proof fn lemma_jar_merge_first_wins(archs: Seq<Seq<u8>>)
    ensures
        forall|l1: int, l2: int|
            0 <= l1 < l2 < spec_jar_merge_plan(archs).len() ==> (#[trigger] spec_jar_merge_plan(
                archs,
            )[l1]).2 != (#[trigger] spec_jar_merge_plan(archs)[l2]).2,
        forall|l: int|
            0 <= l < spec_jar_merge_plan(archs).len() ==> exists|m: int|
                {
                    &&& 0 <= m < jar_stream_upto(archs, archs.len() as int).len()
                    &&& jar_stream_upto(archs, archs.len() as int)[m]
                        == #[trigger] spec_jar_merge_plan(archs)[l]
                    &&& forall|m2: int|
                        0 <= m2 < m ==> (#[trigger] jar_stream_upto(archs, archs.len() as int)[m2]).2
                            != jar_stream_upto(archs, archs.len() as int)[m].2
                },
        forall|m: int|
            0 <= m < jar_stream_upto(archs, archs.len() as int).len() ==> exists|l: int|
                0 <= l < spec_jar_merge_plan(archs).len() && (#[trigger] jar_stream_upto(
                    archs,
                    archs.len() as int,
                )[m]).2 == spec_jar_merge_plan(archs)[l].2,
{
    let stream = jar_stream_upto(archs, archs.len() as int);
    let plan = spec_jar_merge_plan(archs);
    let f = jar_key();
    lemma_dedup_by_first_wins(stream, f, Set::empty());
    lemma_dedup_by_keys(stream, f, Set::empty());
    assert forall|l1: int, l2: int| 0 <= l1 < l2 < plan.len() implies (#[trigger] plan[l1]).2 != (
    #[trigger] plan[l2]).2 by {
        assert(f(plan[l1]) != f(plan[l2]));
    };
    assert forall|m: int| 0 <= m < stream.len() implies exists|l: int|
        0 <= l < plan.len() && (#[trigger] stream[m]).2 == plan[l].2 by {
        lemma_keys_of_contains(stream, f, f(stream[m]));
        assert(keys_of(stream, f).contains(f(stream[m])));
        assert(keys_of(plan, f).contains(f(stream[m])));
        lemma_keys_of_contains(plan, f, f(stream[m]));
        let l = choose|l: int| 0 <= l < plan.len() && f(plan[l]) == f(stream[m]);
        assert(plan[l].2 == stream[m].2);
    };
}

/// Law: the very first applicable classpath entry survives the merge
/// unchanged, version included — whichever component is processed first
/// pins it.
pub proof fn lemma_classpath_first_version(metas: Seq<ComponentMeta>, arch: Seq<char>, os: Seq<char>)
    requires
        spec_cp_stream(metas, arch, os).len() > 0,
    ensures
        spec_merged_classpath(metas, arch, os).len() > 0,
        spec_merged_classpath(metas, arch, os)[0] == spec_cp_stream(metas, arch, os)[0],
{
    let stream = spec_cp_stream(metas, arch, os);
    assert(spec_merged_classpath(metas, arch, os) == seq![stream[0]] + dedup_by(
        stream.drop_first(),
        unv_key(),
        Set::empty().insert(stream[0].spec_key()),
    ));
}


/// Law: a conditional argument is included in the composed arguments
/// exactly by its feature — present whenever the feature holds, and, when
/// no other argument supplies the same text, absent whenever it does not.
/// The demo feature holds exactly when no account is supplied, the
/// quick-play-world feature exactly when a world was requested, and an
/// unrecognized feature never (the conditional is silently dropped, not an
/// error).
pub proof fn lemma_conditional_inclusion(
    args: Seq<MinecraftArgument>,
    i: int,
    value: String,
    feature: ConditionFeature,
    has_account: bool,
    has_world: bool,
)
    requires
        0 <= i < args.len(),
        args[i] == (MinecraftArgument::Conditional { value, feature }),
    ensures
        spec_feature_active(feature, has_account, has_world) ==> spec_filtered_args(
            args,
            has_account,
            has_world,
        ).contains(value@),
        !spec_feature_active(feature, has_account, has_world) && (forall|j: int|
            0 <= j < args.len() && j != i ==> !spec_arg_contribution(
                #[trigger] args[j],
                has_account,
                has_world,
            ).contains(value@)) ==> !spec_filtered_args(args, has_account, has_world).contains(
            value@,
        ),
{
    let g = arg_values(has_account, has_world);
    lemma_concat_map_contains(args, g, value@);
    if spec_feature_active(feature, has_account, has_world) {
        assert(g(args[i]) == seq![value@]);
        assert(g(args[i]).contains(value@)) by {
            assert(g(args[i])[0] == value@);
        };
    } else {
        assert(g(args[i]) == Seq::<Seq<char>>::empty());
        if (forall|j: int|
            0 <= j < args.len() && j != i ==> !spec_arg_contribution(
                #[trigger] args[j],
                has_account,
                has_world,
            ).contains(value@)) {
            assert forall|j: int| 0 <= j < args.len() implies !g(#[trigger] args[j]).contains(
                value@,
            ) by {
                if j == i {
                    assert(g(args[i]).len() == 0);
                }
            };
        }
    }
}

} // verus!
