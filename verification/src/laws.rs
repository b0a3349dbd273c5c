//! The laws of the checker, stated over the models and proved once for all
//! inputs: the decision table for one package, exhaustive aggregation, the
//! exclusion of non-members, and determinism.

use vstd::prelude::*;

use crate::manifest::{spec_lints_workspace, spec_lookup, toml_parse, ManifestView};
use crate::validate::{
    spec_classify_tree, spec_filter_members, spec_is_member, spec_member_packages, spec_run,
    spec_validate_package, spec_validate_workspace, ErrorView, KindView, MetadataView,
    PackageErrorView, PackageView,
};

verus! {

/// Law: a manifest whose `lints.workspace` is the boolean `true` passes.
pub proof fn lemma_delegating_manifest_passes(m: Seq<(Seq<char>, ManifestView)>)
    requires
        spec_lints_workspace(m) == Some(ManifestView::Boolean(true)),
    ensures
        spec_validate_package(m) == Ok::<(), KindView>(()),
{
}

/// Law: a manifest with a `lints` table without `workspace`, or without a
/// `lints` table at all, fails for the missing field.
pub proof fn lemma_missing_field_fails(m: Seq<(Seq<char>, ManifestView)>)
    requires
        spec_lints_workspace(m) is None,
    ensures
        spec_validate_package(m) == Err::<(), KindView>(KindView::WorkspaceLintsMissing),
{
}

/// Law: a manifest without a `lints` table fails for the missing field.
pub proof fn lemma_no_lints_table_fails(m: Seq<(Seq<char>, ManifestView)>)
    requires
        spec_lookup(m, "lints"@) is None,
    ensures
        spec_validate_package(m) == Err::<(), KindView>(KindView::WorkspaceLintsMissing),
{
}

/// Law: a `lints` table without a `workspace` key fails for the missing
/// field.
pub proof fn lemma_no_workspace_key_fails(
    m: Seq<(Seq<char>, ManifestView)>,
    inner: Seq<(Seq<char>, ManifestView)>,
)
    requires
        spec_lookup(m, "lints"@) == Some(ManifestView::Mapping(inner)),
        spec_lookup(inner, "workspace"@) is None,
    ensures
        spec_validate_package(m) == Err::<(), KindView>(KindView::WorkspaceLintsMissing),
{
}

/// Law: any value at `lints.workspace` other than the boolean `true` fails
/// with that very value.
pub proof fn lemma_wrong_value_fails(m: Seq<(Seq<char>, ManifestView)>, v: ManifestView)
    requires
        spec_lints_workspace(m) == Some(v),
        v != ManifestView::Boolean(true),
    ensures
        spec_validate_package(m) == Err::<(), KindView>(KindView::WorkspaceLintsWrongValue(v)),
{
}

/// Member `i`'s manifest was read and parsed.
pub open spec fn spec_infra_ok(reads: Seq<Result<Seq<char>, Seq<char>>>, i: int) -> bool {
    &&& reads[i] is Ok
    &&& toml_parse(reads[i]->Ok_0) is Ok
}

/// The policy outcome of member `i`, when its manifest was read and parsed.
pub open spec fn spec_outcome_at(reads: Seq<Result<Seq<char>, Seq<char>>>, i: int) -> Result<
    (),
    KindView,
> {
    spec_classify_tree(toml_parse(reads[i]->Ok_0)->Ok_0)
}

/// The failure entries of the members from `i` on, in order.
pub open spec fn spec_failures_from(
    members: Seq<PackageView>,
    reads: Seq<Result<Seq<char>, Seq<char>>>,
    i: int,
) -> Seq<PackageErrorView>
    decreases members.len() - i,
{
    if i < 0 || i >= members.len() {
        Seq::empty()
    } else {
        let rest = spec_failures_from(members, reads, i + 1);
        match spec_outcome_at(reads, i) {
            Ok(u) => rest,
            Err(k) => seq![(PackageErrorView { kind: k, package: members[i].id })] + rest,
        }
    }
}

/// How many members from `i` on fail the policy.
pub open spec fn spec_fail_count(
    members: Seq<PackageView>,
    reads: Seq<Result<Seq<char>, Seq<char>>>,
    i: int,
) -> int
    decreases members.len() - i,
{
    if i < 0 || i >= members.len() {
        0
    } else {
        (if spec_outcome_at(reads, i) is Err {
            1int
        } else {
            0int
        }) + spec_fail_count(members, reads, i + 1)
    }
}

/// The failure list carries one entry per failing member.
pub proof fn lemma_fail_count(
    members: Seq<PackageView>,
    reads: Seq<Result<Seq<char>, Seq<char>>>,
    i: int,
)
    ensures
        spec_failures_from(members, reads, i).len() == spec_fail_count(members, reads, i),
    decreases members.len() - i,
{
    if 0 <= i < members.len() {
        lemma_fail_count(members, reads, i + 1);
    }
}

/// A run over members whose manifests were all read and parsed returns the
/// gathered failures followed by the failures still to come, or succeeds if
/// there are none at all.
pub proof fn lemma_run_characterization(
    members: Seq<PackageView>,
    reads: Seq<Result<Seq<char>, Seq<char>>>,
    i: int,
    acc: Seq<PackageErrorView>,
)
    requires
        0 <= i <= members.len(),
        reads.len() == members.len(),
        forall|j: int| i <= j < members.len() ==> spec_infra_ok(reads, j),
    ensures
        ({
            let all = acc + spec_failures_from(members, reads, i);
            spec_run(members, reads, i, acc) == if all.len() == 0 {
                Ok::<(), ErrorView>(())
            } else {
                Err::<(), ErrorView>(ErrorView::FailingPackages(all))
            }
        }),
    decreases members.len() - i,
{
    if i == members.len() {
        assert(acc + spec_failures_from(members, reads, i) =~= acc);
    } else {
        assert(spec_infra_ok(reads, i));
        match spec_outcome_at(reads, i) {
            Ok(u) => {
                lemma_run_characterization(members, reads, i + 1, acc);
            },
            Err(k) => {
                let entry = PackageErrorView { kind: k, package: members[i].id };
                lemma_run_characterization(members, reads, i + 1, acc.push(entry));
                assert(acc.push(entry) + spec_failures_from(members, reads, i + 1) =~= acc + (
                seq![entry] + spec_failures_from(members, reads, i + 1)));
            },
        }
    }
}

/// Law: when every manifest is read and parsed, the run fails exactly when
/// some member package fails the policy, and the aggregated list carries
/// exactly one entry per failing member, in the members' order.
pub proof fn lemma_exhaustive_aggregation(
    meta: MetadataView,
    reads: Seq<Result<Seq<char>, Seq<char>>>,
)
    requires
        reads.len() == spec_member_packages(meta).len(),
        forall|j: int| 0 <= j < reads.len() ==> spec_infra_ok(reads, j),
    ensures
        ({
            let members = spec_member_packages(meta);
            let fails = spec_failures_from(members, reads, 0);
            &&& fails.len() == spec_fail_count(members, reads, 0)
            &&& spec_validate_workspace(meta, reads) == if fails.len() == 0 {
                Ok::<(), ErrorView>(())
            } else {
                Err::<(), ErrorView>(ErrorView::FailingPackages(fails))
            }
        }),
{
    let members = spec_member_packages(meta);
    lemma_fail_count(members, reads, 0);
    lemma_run_characterization(members, reads, 0, Seq::empty());
    assert(Seq::empty() + spec_failures_from(members, reads, 0) =~= spec_failures_from(
        members,
        reads,
        0,
    ));
}

/// Every failure entry from `i` on names the identity of some member at or
/// after `i`.
pub proof fn lemma_failures_name_members(
    members: Seq<PackageView>,
    reads: Seq<Result<Seq<char>, Seq<char>>>,
    i: int,
)
    ensures
        forall|k: int|
            0 <= k < spec_failures_from(members, reads, i).len() ==> exists|j: int|
                i <= j < members.len() && #[trigger] spec_failures_from(members, reads, i)[k].package
                    == members[j].id,
    decreases members.len() - i,
{
    if 0 <= i < members.len() {
        lemma_failures_name_members(members, reads, i + 1);
        let fs = spec_failures_from(members, reads, i);
        let rest = spec_failures_from(members, reads, i + 1);
        match spec_outcome_at(reads, i) {
            Ok(u) => {},
            Err(k0) => {
                assert forall|k: int| 0 <= k < fs.len() implies exists|j: int|
                    i <= j < members.len() && #[trigger] fs[k].package == members[j].id by {
                    if k == 0 {
                        assert(fs[0].package == members[i].id);
                    } else {
                        assert(fs[k] == rest[k - 1]);
                    }
                }
            },
        }
    }
}

/// Law (distinctness): with pairwise distinct member identities, the entries
/// of the aggregated failure list are pairwise distinct.
pub proof fn lemma_failures_pairwise_distinct(
    members: Seq<PackageView>,
    reads: Seq<Result<Seq<char>, Seq<char>>>,
    i: int,
)
    requires
        forall|a: int, b: int|
            0 <= a < b < members.len() ==> #[trigger] members[a].id != #[trigger] members[b].id,
    ensures
        ({
            let fs = spec_failures_from(members, reads, i);
            forall|k1: int, k2: int| 0 <= k1 < k2 < fs.len() ==> #[trigger] fs[k1] != #[trigger] fs[k2]
        }),
    decreases members.len() - i,
{
    if 0 <= i < members.len() {
        lemma_failures_pairwise_distinct(members, reads, i + 1);
        lemma_failures_name_members(members, reads, i + 1);
        let fs = spec_failures_from(members, reads, i);
        let rest = spec_failures_from(members, reads, i + 1);
        match spec_outcome_at(reads, i) {
            Ok(u) => {},
            Err(k0) => {
                assert forall|k1: int, k2: int| 0 <= k1 < k2 < fs.len() implies #[trigger] fs[k1]
                    != #[trigger] fs[k2] by {
                    if k1 == 0 {
                        assert(fs[k2] == rest[k2 - 1]);
                        let j = choose|j: int|
                            i + 1 <= j < members.len() && #[trigger] rest[k2 - 1].package
                                == members[j].id;
                        assert(members[i].id != members[j].id);
                    } else {
                        assert(fs[k1] == rest[k1 - 1]);
                        assert(fs[k2] == rest[k2 - 1]);
                    }
                }
            },
        }
    }
}

/// Every package that the member filter keeps is a workspace member and
/// stands in the package list.
pub proof fn lemma_filter_members_sound(packages: Seq<PackageView>, members: Seq<Seq<char>>)
    ensures
        ({
            let kept = spec_filter_members(packages, members);
            forall|k: int|
                0 <= k < kept.len() ==> spec_is_member(members, #[trigger] kept[k].id)
                    && packages.contains(kept[k])
        }),
    decreases packages.len(),
{
    if packages.len() > 0 {
        lemma_filter_members_sound(packages.drop_last(), members);
        let kept = spec_filter_members(packages, members);
        let rest = spec_filter_members(packages.drop_last(), members);
        assert forall|k: int| 0 <= k < kept.len() implies spec_is_member(
            members,
            #[trigger] kept[k].id,
        ) && packages.contains(kept[k]) by {
            if k < rest.len() {
                assert(kept[k] == rest[k]);
                assert(spec_is_member(
                    members,
                    spec_filter_members(packages.drop_last(), members)[k].id,
                ));
                assert(packages.drop_last().contains(
                    spec_filter_members(packages.drop_last(), members)[k],
                ));
                let j = choose|j: int|
                    0 <= j < packages.drop_last().len() && packages.drop_last()[j] == rest[k];
                assert(packages[j] == rest[k]);
            } else {
                assert(kept[k] == packages.last());
                assert(packages[packages.len() - 1] == packages.last());
            }
        }
    }
}

/// Law (exclusion): packages outside the workspace-member set never appear
/// in an aggregated failure list.
pub proof fn lemma_exclusion(meta: MetadataView, reads: Seq<Result<Seq<char>, Seq<char>>>)
    requires
        reads.len() == spec_member_packages(meta).len(),
        forall|j: int| 0 <= j < reads.len() ==> spec_infra_ok(reads, j),
    ensures
        (match spec_validate_workspace(meta, reads) {
            Err(ErrorView::FailingPackages(l)) => forall|k: int|
                0 <= k < l.len() ==> spec_is_member(meta.workspace_members, #[trigger] l[k].package),
            _ => true,
        }),
{
    let members = spec_member_packages(meta);
    lemma_exhaustive_aggregation(meta, reads);
    lemma_failures_name_members(members, reads, 0);
    lemma_filter_members_sound(meta.packages, meta.workspace_members);
    match spec_validate_workspace(meta, reads) {
        Err(e) => match e {
            ErrorView::FailingPackages(l) => {
                assert forall|k: int| 0 <= k < l.len() implies spec_is_member(
                    meta.workspace_members,
                    #[trigger] l[k].package,
                ) by {
                    let j = choose|j: int|
                        0 <= j < members.len() && #[trigger] l[k].package == members[j].id;
                    assert(spec_is_member(meta.workspace_members, members[j].id));
                }
            },
            _ => {},
        },
        _ => {},
    }
}

/// Law (determinism): the outcome is a function of the metadata and the read
/// manifest texts alone, so two runs over unchanged files return the same
/// result with the same content. `toml_parse` names parsing as a function of
/// the text, and `validate_workspace` returns exactly this value.
pub proof fn lemma_deterministic(
    meta1: MetadataView,
    reads1: Seq<Result<Seq<char>, Seq<char>>>,
    meta2: MetadataView,
    reads2: Seq<Result<Seq<char>, Seq<char>>>,
)
    requires
        meta1 == meta2,
        reads1 == reads2,
    ensures
        spec_validate_workspace(meta1, reads1) == spec_validate_workspace(meta2, reads2),
{
}

} // verus!
