//! Validation of a workspace: classify each member package's manifest by the
//! `lints.workspace` rule and aggregate every failure, in the order the
//! packages were supplied, without stopping at the first one.

use vstd::prelude::*;

use crate::manifest::{
    clone_value, parse_manifest, spec_lints_workspace, toml_parse, ManifestTable, ManifestValue,
    ManifestView,
};

verus! {

/// One package of the dependency graph: its identity, its human-readable
/// name, and the path of its manifest file.
pub struct Package {
    pub id: String,
    pub name: String,
    pub manifest_path: String,
}

/// The model of a package.
pub ghost struct PackageView {
    pub id: Seq<char>,
    pub name: Seq<char>,
    pub manifest_path: Seq<char>,
}

impl View for Package {
    type V = PackageView;

    open spec fn view(&self) -> PackageView {
        PackageView { id: self.id@, name: self.name@, manifest_path: self.manifest_path@ }
    }
}

/// What a metadata query reports: every package of the dependency graph, and
/// the identities of those that are workspace members.
pub struct WorkspaceMetadata {
    pub packages: Vec<Package>,
    pub workspace_members: Vec<String>,
}

/// The model of a metadata report.
pub ghost struct MetadataView {
    pub packages: Seq<PackageView>,
    pub workspace_members: Seq<Seq<char>>,
}

/// The models of the packages of a list, in order.
pub open spec fn packages_view(ps: Seq<Package>) -> Seq<PackageView> {
    Seq::new(ps.len(), |i: int| ps[i]@)
}

/// The models of the identities of a list, in order.
pub open spec fn ids_view(ids: Seq<String>) -> Seq<Seq<char>> {
    Seq::new(ids.len(), |i: int| ids[i]@)
}

impl View for WorkspaceMetadata {
    type V = MetadataView;

    open spec fn view(&self) -> MetadataView {
        MetadataView {
            packages: packages_view(self.packages@),
            workspace_members: ids_view(self.workspace_members@),
        }
    }
}

/// Why one package fails the check.
#[derive(Debug, PartialEq)]
pub enum PackageValidationErrorKind {
    /// There is no `lints.workspace` field.
    WorkspaceLintsMissing,
    /// The `lints.workspace` field is there, but holds the wrong value.
    WorkspaceLintsWrongValue(ManifestValue),
}

/// The model of a failure reason.
pub ghost enum KindView {
    WorkspaceLintsMissing,
    WorkspaceLintsWrongValue(ManifestView),
}

impl View for PackageValidationErrorKind {
    type V = KindView;

    open spec fn view(&self) -> KindView {
        match self {
            PackageValidationErrorKind::WorkspaceLintsMissing => KindView::WorkspaceLintsMissing,
            PackageValidationErrorKind::WorkspaceLintsWrongValue(v) => (
            KindView::WorkspaceLintsWrongValue(v@)),
        }
    }
}

/// A package that failed the check, with the reason.
#[derive(Debug, PartialEq)]
pub struct PackageValidationError {
    /// Why the package failed.
    pub kind: PackageValidationErrorKind,
    /// Which package failed.
    pub package: String,
}

/// The model of a package failure.
pub ghost struct PackageErrorView {
    pub kind: KindView,
    pub package: Seq<char>,
}

impl View for PackageValidationError {
    type V = PackageErrorView;

    open spec fn view(&self) -> PackageErrorView {
        PackageErrorView { kind: self.kind@, package: self.package@ }
    }
}

/// The models of the failures of a list, in order.
pub open spec fn failures_view(fs: Seq<PackageValidationError>) -> Seq<PackageErrorView> {
    Seq::new(fs.len(), |i: int| fs[i]@)
}

/// All the reasons why a whole run fails.
#[derive(Debug, PartialEq)]
pub enum WorkspaceValidationError {
    /// A manifest file could not be read.
    Io(String),
    /// The metadata query itself failed.
    CargoMetadata(String),
    /// A manifest file is not well-formed TOML.
    Toml(String),
    /// Every manifest was read, and these packages failed the check.
    FailingPackages(Vec<PackageValidationError>),
}

/// The model of a run's failure.
pub ghost enum ErrorView {
    Io(Seq<char>),
    CargoMetadata(Seq<char>),
    Toml(Seq<char>),
    FailingPackages(Seq<PackageErrorView>),
}

impl View for WorkspaceValidationError {
    type V = ErrorView;

    open spec fn view(&self) -> ErrorView {
        match self {
            WorkspaceValidationError::Io(m) => ErrorView::Io(m@),
            WorkspaceValidationError::CargoMetadata(m) => ErrorView::CargoMetadata(m@),
            WorkspaceValidationError::Toml(m) => ErrorView::Toml(m@),
            WorkspaceValidationError::FailingPackages(fs) => (
            ErrorView::FailingPackages(failures_view(fs@))),
        }
    }
}

/// The decision table for one manifest: `lints.workspace = true` passes;
/// any other value at that path is `WorkspaceLintsWrongValue` with that very
/// value; an absent path is `WorkspaceLintsMissing`.
pub open spec fn spec_validate_package(m: Seq<(Seq<char>, ManifestView)>) -> Result<
    (),
    KindView,
> {
    match spec_lints_workspace(m) {
        Some(ManifestView::Boolean(true)) => Ok(()),
        Some(v) => Err(KindView::WorkspaceLintsWrongValue(v)),
        None => Err(KindView::WorkspaceLintsMissing),
    }
}

/// The model of a per-package result.
pub open spec fn kind_result_view(r: Result<(), PackageValidationErrorKind>) -> Result<
    (),
    KindView,
> {
    match r {
        Ok(u) => Ok(u),
        Err(k) => Err(k@),
    }
}

/// Classifies one package's manifest, as `spec_validate_package` says.
///
/// The returned outcome is a function of the manifest tree alone; the
/// package itself only names what is being checked.
pub fn validate_package(_package: &Package, manifest: &ManifestTable) -> (r: Result<
    (),
    PackageValidationErrorKind,
>)
    ensures
        kind_result_view(r) == spec_validate_package(manifest@),
{
    let found = lints_workspace_value(manifest);
    match found {
        None => Err(PackageValidationErrorKind::WorkspaceLintsMissing),
        Some(v) => match v {
            ManifestValue::Boolean(b) => {
                if *b {
                    Ok(())
                } else {
                    Err(PackageValidationErrorKind::WorkspaceLintsWrongValue(clone_value(v)))
                }
            },
            ManifestValue::Str(_) => Err(
                PackageValidationErrorKind::WorkspaceLintsWrongValue(clone_value(v)),
            ),
            ManifestValue::Integer(_) => Err(
                PackageValidationErrorKind::WorkspaceLintsWrongValue(clone_value(v)),
            ),
            ManifestValue::Float(_) => Err(
                PackageValidationErrorKind::WorkspaceLintsWrongValue(clone_value(v)),
            ),
            ManifestValue::Mapping(_) => Err(
                PackageValidationErrorKind::WorkspaceLintsWrongValue(clone_value(v)),
            ),
            ManifestValue::Sequence(_) => Err(
                PackageValidationErrorKind::WorkspaceLintsWrongValue(clone_value(v)),
            ),
        },
    }
}

/// Whether `id` is one of the identities of `members`.
pub open spec fn spec_is_member(members: Seq<Seq<char>>, id: Seq<char>) -> bool {
    exists|j: int| 0 <= j < members.len() && members[j] == id
}

/// The packages of the list that are workspace members, in their given
/// order.
pub open spec fn spec_filter_members(
    packages: Seq<PackageView>,
    members: Seq<Seq<char>>,
) -> Seq<PackageView>
    decreases packages.len(),
{
    if packages.len() == 0 {
        Seq::empty()
    } else {
        let rest = spec_filter_members(packages.drop_last(), members);
        if spec_is_member(members, packages.last().id) {
            rest.push(packages.last())
        } else {
            rest
        }
    }
}

/// The member packages of a metadata report, in its order.
pub open spec fn spec_member_packages(meta: MetadataView) -> Seq<PackageView> {
    spec_filter_members(meta.packages, meta.workspace_members)
}

/// Whether `id` is a workspace member identity, as `spec_is_member` says.
fn is_member(members: &Vec<String>, id: &String) -> (r: bool)
    ensures
        r == spec_is_member(ids_view(members@), id@),
{
    let mut i: usize = 0;
    while i < members.len()
        invariant
            i <= members@.len(),
            forall|j: int| 0 <= j < i ==> #[trigger] ids_view(members@)[j] != id@,
        decreases members@.len() - i,
    {
        if members[i] == *id {
            proof {
                assert(ids_view(members@)[i as int] == id@);
            }
            return true;
        }
        i = i + 1;
    }
    false
}

/// An owned copy of a package, equal to it under the model.
fn clone_package(p: &Package) -> (r: Package)
    ensures
        r@ == p@,
{
    Package {
        id: p.id.clone(),
        name: p.name.clone(),
        manifest_path: p.manifest_path.clone(),
    }
}

/// Restricts a metadata report to its member packages, keeping their order;
/// packages outside the member set are left out, never reported.
pub fn member_packages(metadata: &WorkspaceMetadata) -> (r: Vec<Package>)
    ensures
        packages_view(r@) == spec_member_packages(metadata@),
{
    let ghost pv = packages_view(metadata.packages@);
    let ghost mv = ids_view(metadata.workspace_members@);
    let mut out: Vec<Package> = Vec::new();
    let mut i: usize = 0;
    proof {
        assert(packages_view(out@) =~= spec_filter_members(pv.take(0), mv));
    }
    while i < metadata.packages.len()
        invariant
            i <= metadata.packages@.len(),
            pv == packages_view(metadata.packages@),
            mv == ids_view(metadata.workspace_members@),
            packages_view(out@) == spec_filter_members(pv.take(i as int), mv),
        decreases metadata.packages@.len() - i,
    {
        let p = &metadata.packages[i];
        let ghost prev = out@;
        proof {
            assert(pv.take(i as int + 1).drop_last() =~= pv.take(i as int));
            assert(pv.take(i as int + 1).last() == pv[i as int]);
            assert(pv[i as int] == p@);
        }
        if is_member(&metadata.workspace_members, &p.id) {
            let c = clone_package(p);
            out.push(c);
            proof {
                assert(packages_view(out@) =~= packages_view(prev).push(p@));
            }
        }
        i = i + 1;
    }
    proof {
        assert(pv.take(metadata.packages@.len() as int) =~= pv);
    }
    out
}

/// The value at `lints.workspace` of a manifest, as `spec_lints_workspace`
/// says.
fn lints_workspace_value(manifest: &ManifestTable) -> (r: Option<&ManifestValue>)
    ensures
        match r {
            Some(v) => spec_lints_workspace(manifest@) == Some(v@),
            None => spec_lints_workspace(manifest@) is None,
        },
{
    let lints_key: String = String::from_str("lints");
    match crate::manifest::lookup(&manifest.entries, &lints_key) {
        None => None,
        Some(lints) => match lints {
            ManifestValue::Mapping(inner) => {
                let workspace_key: String = String::from_str("workspace");
                crate::manifest::lookup(inner, &workspace_key)
            },
            ManifestValue::Boolean(_) => None,
            ManifestValue::Str(_) => None,
            ManifestValue::Integer(_) => None,
            ManifestValue::Float(_) => None,
            ManifestValue::Sequence(_) => None,
        },
    }
}

/// Classifies one parsed manifest tree; a tree that is no mapping has no
/// `lints.workspace` path at all.
pub open spec fn spec_classify_tree(tree: ManifestView) -> Result<(), KindView> {
    match tree {
        ManifestView::Mapping(es) => spec_validate_package(es),
        _ => Err(KindView::WorkspaceLintsMissing),
    }
}

/// One run over the member packages from position `i` on, with the failures
/// gathered so far. A failed read or an ill-formed manifest ends the run at
/// once; a policy failure is recorded and the run goes on; a run that read
/// everything fails exactly when some package failed, and then carries every
/// failure, in order.
pub open spec fn spec_run(
    members: Seq<PackageView>,
    reads: Seq<Result<Seq<char>, Seq<char>>>,
    i: int,
    acc: Seq<PackageErrorView>,
) -> Result<(), ErrorView>
    decreases members.len() - i,
{
    if i < 0 || i >= members.len() {
        if acc.len() == 0 {
            Ok(())
        } else {
            Err(ErrorView::FailingPackages(acc))
        }
    } else {
        match reads[i] {
            Err(m) => Err(ErrorView::Io(m)),
            Ok(text) => match toml_parse(text) {
                Err(e) => Err(ErrorView::Toml(e)),
                Ok(tree) => match spec_classify_tree(tree) {
                    Ok(u) => spec_run(members, reads, i + 1, acc),
                    Err(k) => spec_run(
                        members,
                        reads,
                        i + 1,
                        acc.push(PackageErrorView { kind: k, package: members[i].id }),
                    ),
                },
            },
        }
    }
}

/// The models of a list of read results.
pub open spec fn reads_view(rs: Seq<Result<String, String>>) -> Seq<
    Result<Seq<char>, Seq<char>>,
> {
    Seq::new(
        rs.len(),
        |i: int|
            match rs[i] {
                Ok(s) => Ok(s@),
                Err(s) => Err(s@),
            },
    )
}

/// The model of a whole run's result.
pub open spec fn run_result_view(r: Result<(), WorkspaceValidationError>) -> Result<
    (),
    ErrorView,
> {
    match r {
        Ok(u) => Ok(u),
        Err(e) => Err(e@),
    }
}

/// What a whole run returns: the member packages validated in order against
/// their manifest read results.
pub open spec fn spec_validate_workspace(
    meta: MetadataView,
    reads: Seq<Result<Seq<char>, Seq<char>>>,
) -> Result<(), ErrorView> {
    spec_run(spec_member_packages(meta), reads, 0, Seq::empty())
}

/// Validates every member package of the workspace and aggregates the
/// failures, as `spec_validate_workspace` says.
///
/// `manifest_reads` holds, for each member package in the order of
/// `member_packages`, the text of its manifest file or the message of the
/// failed attempt to read it.
#[verifier::loop_isolation(false)]
pub fn validate_workspace(
    metadata: &WorkspaceMetadata,
    manifest_reads: &Vec<Result<String, String>>,
) -> (r: Result<(), WorkspaceValidationError>)
    requires
        manifest_reads@.len() == spec_member_packages(metadata@).len(),
    ensures
        run_result_view(r) == spec_validate_workspace(metadata@, reads_view(manifest_reads@)),
{
    let members = member_packages(metadata);
    let ghost mv = spec_member_packages(metadata@);
    let ghost rv = reads_view(manifest_reads@);
    let mut failures: Vec<PackageValidationError> = Vec::new();
    let mut i: usize = 0;
    proof {
        assert(failures_view(failures@) =~= Seq::<PackageErrorView>::empty());
    }
    while i < members.len()
        invariant
            i <= members@.len(),
            packages_view(members@) == mv,
            spec_run(mv, rv, 0, Seq::empty()) == spec_run(
                mv,
                rv,
                i as int,
                failures_view(failures@),
            ),
        decreases members@.len() - i,
    {
        proof {
            assert(mv[i as int] == members@[i as int]@);
        }
        match &manifest_reads[i] {
            Err(m) => {
                proof {
                    assert(rv[i as int] == Err::<Seq<char>, Seq<char>>(m@));
                }
                return Err(WorkspaceValidationError::Io(m.clone()));
            },
            Ok(text) => {
                proof {
                    assert(rv[i as int] == Ok::<Seq<char>, Seq<char>>(text@));
                }
                match parse_manifest(text.as_str()) {
                    Err(e) => {
                        return Err(WorkspaceValidationError::Toml(e));
                    },
                    Ok(table) => {
                        match validate_package(&members[i], &table) {
                            Ok(()) => {},
                            Err(kind) => {
                                let ghost prev = failures@;
                                let p = &members[i];
                                let entry = PackageValidationError {
                                    kind,
                                    package: p.id.clone(),
                                };
                                failures.push(entry);
                                proof {
                                    assert(failures_view(failures@) =~= failures_view(
                                        prev,
                                    ).push(
                                        PackageErrorView {
                                            kind: entry.kind@,
                                            package: mv[i as int].id,
                                        },
                                    ));
                                }
                            },
                        }
                    },
                }
            },
        }
        i = i + 1;
    }
    if failures.len() == 0 {
        Ok(())
    } else {
        Err(WorkspaceValidationError::FailingPackages(failures))
    }
}

} // verus!
