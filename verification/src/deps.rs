//! The dependency linker.
//!
//! Validates every declared dependency edge of a new version — no
//! cross-registry edges, the referenced package must exist under its exact
//! name, no wildcard requirements — and only when all pass produces the full
//! batch of edges, so a validation failure never inserts a partial batch.

use vstd::prelude::*;

use crate::registry::{DepKind, DependencyEdge, DependencyEdgeView, Package, PackageView};

verus! {

/// One dependency declaration from the publish metadata.
pub struct DependencyDeclaration {
    /// The exact (not canonicalized) name of the referenced package.
    pub name: String,
    pub version_req: String,
    pub kind: Option<DepKind>,
    pub optional: bool,
    pub default_features: bool,
    pub features: Vec<String>,
    pub target: Option<String>,
    pub explicit_name_in_toml: Option<String>,
    /// An alternate registry, which this registry rejects when non-empty.
    pub registry: Option<String>,
}

#[verifier::ext_equal]
pub ghost struct DependencyDeclarationView {
    pub name: Seq<char>,
    pub version_req: Seq<char>,
    pub kind: Option<DepKind>,
    pub optional: bool,
    pub default_features: bool,
    pub features: Seq<Seq<char>>,
    pub target: Option<Seq<char>>,
    pub explicit_name_in_toml: Option<Seq<char>>,
    pub registry: Option<Seq<char>>,
}

impl View for DependencyDeclaration {
    type V = DependencyDeclarationView;

    open spec fn view(&self) -> DependencyDeclarationView {
        DependencyDeclarationView {
            name: self.name@,
            version_req: self.version_req@,
            kind: self.kind,
            optional: self.optional,
            default_features: self.default_features,
            features: crate::validate::seq_views(self.features@),
            target: crate::registry::opt_view(self.target),
            explicit_name_in_toml: crate::registry::opt_view(self.explicit_name_in_toml),
            registry: crate::registry::opt_view(self.registry),
        }
    }
}

#[derive(Clone, Debug, PartialEq, Eq)]
pub enum DepError {
    /// The declaration names a non-empty alternate registry.
    CrossRegistry { name: String },
    /// No package is registered under the exact referenced name.
    UnknownCrate { name: String },
    /// The version requirement is the bare wildcard.
    Wildcard { name: String },
}

#[verifier::ext_equal]
pub ghost enum DepErrorView {
    CrossRegistry { name: Seq<char> },
    UnknownCrate { name: Seq<char> },
    Wildcard { name: Seq<char> },
}

impl View for DepError {
    type V = DepErrorView;

    open spec fn view(&self) -> DepErrorView {
        match self {
            DepError::CrossRegistry { name } => DepErrorView::CrossRegistry { name: name@ },
            DepError::UnknownCrate { name } => DepErrorView::UnknownCrate { name: name@ },
            DepError::Wildcard { name } => DepErrorView::Wildcard { name: name@ },
        }
    }
}

/// Whether a requirement string parses to the bare wildcard requirement.
pub uninterp spec fn req_is_wildcard(s: Seq<char>) -> bool;

/// Relies on semver's `VersionReq::parse` and `VersionReq::STAR`: whether a
/// requirement string parses to the bare wildcard requirement (`*`, possibly
/// padded with spaces) depends on the string alone, and the one-character
/// string `*` does.
#[verifier::external_body]
fn version_req_is_star(s: &str) -> (r: bool)
    ensures
        r == req_is_wildcard(s@),
        s@ == "*"@ ==> r,
{
    match semver::VersionReq::parse(s) {
        Ok(req) => req == semver::VersionReq::STAR,
        Err(_) => false,
    }
}

/// Whether some package carries exactly this name.
pub open spec fn has_exact_pkg(ps: Seq<PackageView>, name: Seq<char>) -> bool {
    exists|i: int| 0 <= i < ps.len() && (#[trigger] ps[i]).name == name
}

/// The position of the package carrying exactly this name; unique when names
/// are pairwise distinct.
pub open spec fn exact_pkg_idx(ps: Seq<PackageView>, name: Seq<char>) -> int {
    choose|i: int| 0 <= i < ps.len() && (#[trigger] ps[i]).name == name
}

/// Pairwise distinctness of package names.
pub open spec fn pkg_names_distinct(ps: Seq<PackageView>) -> bool {
    forall|i: int, j: int|
        0 <= i < j < ps.len() ==> (#[trigger] ps[i]).name != (#[trigger] ps[j]).name
}

/// Whether a declaration names a non-empty alternate registry.
pub open spec fn cross_registry(d: DependencyDeclarationView) -> bool {
    match d.registry {
        Some(r) => r.len() > 0,
        None => false,
    }
}

/// Whether one declaration is rejected against the given package table.
pub open spec fn dep_problem(ps: Seq<PackageView>, d: DependencyDeclarationView) -> bool {
    cross_registry(d) || !has_exact_pkg(ps, d.name) || req_is_wildcard(d.version_req)
}

/// Whether some declaration before position `i` is rejected.
pub open spec fn dep_problem_before(
    ps: Seq<PackageView>,
    ds: Seq<DependencyDeclarationView>,
    i: int,
) -> bool {
    exists|j: int| 0 <= j < i && dep_problem(ps, #[trigger] ds[j])
}

/// Whether the whole batch of declarations passes validation.
pub open spec fn deps_all_ok(ps: Seq<PackageView>, ds: Seq<DependencyDeclarationView>) -> bool {
    forall|i: int| 0 <= i < ds.len() ==> !dep_problem(ps, #[trigger] ds[i])
}

/// The rejection, if any, for the first declaration that is rejected, with
/// the rules checked in declaration order: cross-registry edge, unknown
/// exact name, wildcard requirement.
pub open spec fn first_dep_error(
    ps: Seq<PackageView>,
    ds: Seq<DependencyDeclarationView>,
) -> Option<DepErrorView>
    decreases ds.len(),
{
    if ds.len() == 0 {
        None
    } else if cross_registry(ds[0]) {
        Some(DepErrorView::CrossRegistry { name: ds[0].name })
    } else if !has_exact_pkg(ps, ds[0].name) {
        Some(DepErrorView::UnknownCrate { name: ds[0].name })
    } else if req_is_wildcard(ds[0].version_req) {
        Some(DepErrorView::Wildcard { name: ds[0].name })
    } else {
        first_dep_error(ps, ds.drop_first())
    }
}

/// The whole batch of edges for an accepted list of declarations.
pub open spec fn dep_edges_of(
    ps: Seq<PackageView>,
    version_id: u64,
    ds: Seq<DependencyDeclarationView>,
) -> Seq<DependencyEdgeView> {
    Seq::new(ds.len(), |i: int| spec_dep_edge(ps, version_id, ds[i]))
}

/// No declaration is rejected exactly when no first rejection exists.
pub proof fn lemma_first_dep_error_none(ps: Seq<PackageView>, ds: Seq<DependencyDeclarationView>)
    ensures
        (first_dep_error(ps, ds) is None) <==> deps_all_ok(ps, ds),
    decreases ds.len(),
{
    if ds.len() == 0 {
        assert(deps_all_ok(ps, ds));
    } else {
        let tail = ds.drop_first();
        lemma_first_dep_error_none(ps, tail);
        if dep_problem(ps, ds[0]) {
            assert(!deps_all_ok(ps, ds));
            assert(first_dep_error(ps, ds) is Some);
        } else {
            assert(first_dep_error(ps, ds) == first_dep_error(ps, tail));
            if deps_all_ok(ps, tail) {
                assert forall|i: int| 0 <= i < ds.len() implies !dep_problem(
                    ps,
                    #[trigger] ds[i],
                ) by {
                    if i > 0 {
                        assert(ds[i] == tail[i - 1]);
                        assert(!dep_problem(ps, tail[i - 1]));
                    }
                }
            }
            if deps_all_ok(ps, ds) {
                assert forall|i: int| 0 <= i < tail.len() implies !dep_problem(
                    ps,
                    #[trigger] tail[i],
                ) by {
                    assert(tail[i] == ds[i + 1]);
                }
            }
        }
    }
}

/// The stored kind of a declaration: absent means normal.
pub open spec fn stored_kind(k: Option<DepKind>) -> DepKind {
    match k {
        Some(k) => k,
        None => DepKind::Normal,
    }
}

/// The edge persisted for one accepted declaration.
pub open spec fn spec_dep_edge(
    ps: Seq<PackageView>,
    version_id: u64,
    d: DependencyDeclarationView,
) -> DependencyEdgeView {
    DependencyEdgeView {
        version_id,
        package_id: ps[exact_pkg_idx(ps, d.name)].id,
        req: d.version_req,
        kind: stored_kind(d.kind),
        optional: d.optional,
        default_features: d.default_features,
        features: d.features,
        target: d.target,
        explicit_name: d.explicit_name_in_toml,
    }
}

pub(crate) fn clone_opt_string(o: &Option<String>) -> (r: Option<String>)
    ensures
        crate::registry::opt_view(r) == crate::registry::opt_view(*o),
{
    match o {
        Some(s) => Some(s.clone()),
        None => None,
    }
}

pub(crate) fn clone_string_vec(v: &Vec<String>) -> (r: Vec<String>)
    ensures
        crate::validate::seq_views(r@) == crate::validate::seq_views(v@),
{
    let r = v.clone();
    assert(crate::validate::seq_views(r@) =~= crate::validate::seq_views(v@)) by {
        assert(forall|i: int| 0 <= i < v@.len() ==> r@[i] == v@[i]);
    }
    r
}

/// Validates every declared edge against the package table and, only when
/// all pass, returns the full batch of edges for the target version, so that
/// a rejection never leaves a partial batch behind.
pub fn add_dependencies(
    packages: &Vec<Package>,
    deps: &Vec<DependencyDeclaration>,
    target_version_id: u64,
) -> (r: Result<Vec<DependencyEdge>, DepError>)
    requires
        pkg_names_distinct(packages@.map_values(|p: Package| p@)),
    ensures
        ({
            let ps = packages@.map_values(|p: Package| p@);
            let ds = deps@.map_values(|d: DependencyDeclaration| d@);
            match r {
                Ok(edges) => {
                    &&& first_dep_error(ps, ds) is None
                    &&& edges@.map_values(|e: DependencyEdge| e@) == dep_edges_of(
                        ps,
                        target_version_id,
                        ds,
                    )
                },
                Err(e) => Some(e@) == first_dep_error(ps, ds),
            }
        }),
        r is Ok <==> deps_all_ok(
            packages@.map_values(|p: Package| p@),
            deps@.map_values(|d: DependencyDeclaration| d@),
        ),
{
    let ghost ps = packages@.map_values(|p: Package| p@);
    let ghost ds = deps@.map_values(|d: DependencyDeclaration| d@);
    proof {
        lemma_first_dep_error_none(ps, ds);
    }
    let n = deps.len();
    let mut edges: Vec<DependencyEdge> = Vec::new();
    let mut i: usize = 0;
    assert(ds.skip(0) =~= ds);
    while i < n
        invariant
            pkg_names_distinct(ps),
            ps == packages@.map_values(|p: Package| p@),
            ds == deps@.map_values(|d: DependencyDeclaration| d@),
            (first_dep_error(ps, ds) is None) <==> deps_all_ok(ps, ds),
            n == deps@.len(),
            i <= n,
            edges@.len() == i,
            first_dep_error(ps, ds) == first_dep_error(ps, ds.skip(i as int)),
            forall|j: int|
                0 <= j < i ==> (#[trigger] edges@[j])@ == spec_dep_edge(
                    ps,
                    target_version_id,
                    ds[j],
                ),
        decreases n - i,
    {
        let d = &deps[i];
        assert(ds[i as int] == d@);
        assert(ds.skip(i as int)[0] == ds[i as int]);
        if let Some(reg) = &d.registry {
            if !reg.as_str().is_empty() {
                assert(cross_registry(ds[i as int]));
                assert(first_dep_error(ps, ds) == Some(
                    DepErrorView::CrossRegistry { name: ds[i as int].name },
                ));
                return Err(DepError::CrossRegistry { name: d.name.clone() });
            }
        }
        assert(!cross_registry(ds[i as int]));
        let target_pkg = find_exact_pkg(packages, &d.name);
        let pkg_idx = match target_pkg {
            Some(pi) => pi,
            None => {
                assert(first_dep_error(ps, ds) == Some(
                    DepErrorView::UnknownCrate { name: ds[i as int].name },
                ));
                return Err(DepError::UnknownCrate { name: d.name.clone() });
            },
        };
        proof {
            assert(has_exact_pkg(ps, d@.name)) by {
                assert(ps[pkg_idx as int].name == d@.name);
            }
            let k = exact_pkg_idx(ps, d@.name);
            assert(0 <= k < ps.len() && ps[k].name == d@.name);
            if k < pkg_idx as int {
                assert(ps[k].name != ps[pkg_idx as int].name);
            } else if k > pkg_idx as int {
                assert(ps[pkg_idx as int].name != ps[k].name);
            }
            assert(k == pkg_idx as int);
        }
        if version_req_is_star(d.version_req.as_str()) {
            assert(first_dep_error(ps, ds) == Some(
                DepErrorView::Wildcard { name: ds[i as int].name },
            ));
            return Err(DepError::Wildcard { name: d.name.clone() });
        }
        let edge = DependencyEdge {
            version_id: target_version_id,
            package_id: packages[pkg_idx].id,
            req: d.version_req.clone(),
            kind: match d.kind {
                Some(k) => k,
                None => DepKind::Normal,
            },
            optional: d.optional,
            default_features: d.default_features,
            features: clone_string_vec(&d.features),
            target: clone_opt_string(&d.target),
            explicit_name: clone_opt_string(&d.explicit_name_in_toml),
        };
        assert(edge@ == spec_dep_edge(ps, target_version_id, ds[i as int]));
        edges.push(edge);
        assert(ds.skip(i as int).drop_first() =~= ds.skip(i + 1));
        i = i + 1;
    }
    assert(ds.skip(n as int) =~= Seq::<DependencyDeclarationView>::empty());
    assert(first_dep_error(ps, ds) is None);
    assert(edges@.map_values(|e: DependencyEdge| e@) =~= dep_edges_of(ps, target_version_id, ds));
    Ok(edges)
}

/// Finds the package registered under exactly `name`.
fn find_exact_pkg(packages: &Vec<Package>, name: &String) -> (r: Option<usize>)
    ensures
        ({
            let ps = packages@.map_values(|p: Package| p@);
            match r {
                Some(i) => i < ps.len() && ps[i as int].name == name@,
                None => !has_exact_pkg(ps, name@),
            }
        }),
{
    let ghost ps = packages@.map_values(|p: Package| p@);
    let n = packages.len();
    let mut i: usize = 0;
    while i < n
        invariant
            ps == packages@.map_values(|p: Package| p@),
            n == packages@.len(),
            i <= n,
            forall|j: int| 0 <= j < i ==> (#[trigger] ps[j]).name != name@,
        decreases n - i,
    {
        if packages[i].name == *name {
            assert(ps[i as int].name == name@);
            return Some(i);
        }
        assert(ps[i as int].name != name@);
        i = i + 1;
    }
    None
}

impl DepErrorView {
    /// The stable human-readable message for the rejection.
    pub open spec fn spec_message(self) -> Seq<char> {
        match self {
            DepErrorView::CrossRegistry { name } => "Dependency `"@ + name
                + "` is hosted on another registry. Cross-registry dependencies are not permitted on crates.io."@,
            DepErrorView::UnknownCrate { name } => "no known crate named `"@ + name + "`"@,
            DepErrorView::Wildcard { name } => "wildcard (`*`) dependency constraints are not allowed on crates.io. Crate with this problem: `"@
                + name
                + "` See https://doc.rust-lang.org/cargo/faq.html#can-libraries-use--as-a-version-for-their-dependencies for more information"@,
        }
    }
}

impl DepError {
    pub fn message(&self) -> (r: String)
        ensures
            r@ == self@.spec_message(),
    {
        match self {
            DepError::CrossRegistry { name } => {
                let mut s = String::from_str("Dependency `");
                s.append(name.as_str());
                s.append(
                    "` is hosted on another registry. Cross-registry dependencies are not permitted on crates.io.",
                );
                s
            },
            DepError::UnknownCrate { name } => {
                let mut s = String::from_str("no known crate named `");
                s.append(name.as_str());
                s.append("`");
                s
            },
            DepError::Wildcard { name } => {
                let mut s = String::from_str(
                    "wildcard (`*`) dependency constraints are not allowed on crates.io. Crate with this problem: `",
                );
                s.append(name.as_str());
                s.append(
                    "` See https://doc.rust-lang.org/cargo/faq.html#can-libraries-use--as-a-version-for-their-dependencies for more information",
                );
                s
            },
        }
    }
}

/// A batch with a wildcard requirement anywhere in it never validates,
/// whatever the other fields or the package table hold.
pub proof fn lemma_wildcard_always_rejected(
    ps: Seq<PackageView>,
    ds: Seq<DependencyDeclarationView>,
    i: int,
)
    requires
        0 <= i < ds.len(),
        req_is_wildcard(ds[i].version_req),
    ensures
        !deps_all_ok(ps, ds),
{
    assert(dep_problem(ps, ds[i]));
}

} // verus!
