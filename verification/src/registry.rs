//! The in-memory model of the authoritative record store.
//!
//! Packages, versions, dependency edges, ownership entries, teams, the
//! reserved-name set, the category taxonomy, version attribution records,
//! queued follow-up jobs and rate-limit buckets, together with the
//! well-formedness invariant that every mutating operation preserves.

use vstd::prelude::*;

use crate::ratelimit::{Bucket, BucketConfig, LimitedAction};
use crate::strutil::{canon_eq, canon_seq, lower_seq};
use crate::validate::seq_views;

verus! {

/// One registered package.
pub struct Package {
    /// Equal to the package's position in the package table.
    pub id: u64,
    /// The registered name, with the casing of the first publish.
    pub name: String,
    pub description: Option<String>,
    pub homepage: Option<String>,
    pub documentation: Option<String>,
    pub repository: Option<String>,
    pub readme: Option<String>,
    /// Per-package override of the compressed upload ceiling.
    pub max_upload_size: Option<u64>,
    pub keywords: Vec<String>,
    pub categories: Vec<String>,
}

#[verifier::ext_equal]
pub ghost struct PackageView {
    pub id: u64,
    pub name: Seq<char>,
    pub description: Option<Seq<char>>,
    pub homepage: Option<Seq<char>>,
    pub documentation: Option<Seq<char>>,
    pub repository: Option<Seq<char>>,
    pub readme: Option<Seq<char>>,
    pub max_upload_size: Option<u64>,
    pub keywords: Seq<Seq<char>>,
    pub categories: Seq<Seq<char>>,
}

/// The versions among `vs` that belong to the package, in order.
pub open spec fn versions_with_package(vs: Seq<VersionView>, package_id: u64) -> Seq<VersionView>
    decreases vs.len(),
{
    if vs.len() == 0 {
        Seq::empty()
    } else {
        let rest = versions_with_package(vs.drop_last(), package_id);
        if vs.last().package_id == package_id {
            rest.push(vs.last())
        } else {
            rest
        }
    }
}

/// A package none of the versions belong to has none of them.
pub proof fn lemma_versions_with_package_empty(vs: Seq<VersionView>, package_id: u64)
    requires
        forall|i: int| 0 <= i < vs.len() ==> (#[trigger] vs[i]).package_id != package_id,
    ensures
        versions_with_package(vs, package_id).len() == 0,
    decreases vs.len(),
{
    if vs.len() > 0 {
        lemma_versions_with_package_empty(vs.drop_last(), package_id);
        assert(vs.last().package_id != package_id) by {
            assert(vs[vs.len() - 1].package_id != package_id);
        }
    }
}

/// Whether `c` is one of the names in the taxonomy.
pub open spec fn in_taxonomy(tax: Seq<Seq<char>>, c: Seq<char>) -> bool {
    exists|i: int| 0 <= i < tax.len() && #[trigger] tax[i] == c
}

/// The view of an optional string.
pub open spec fn opt_view(o: Option<String>) -> Option<Seq<char>> {
    match o {
        Some(s) => Some(s@),
        None => None,
    }
}

impl View for Package {
    type V = PackageView;

    open spec fn view(&self) -> PackageView {
        PackageView {
            id: self.id,
            name: self.name@,
            description: opt_view(self.description),
            homepage: opt_view(self.homepage),
            documentation: opt_view(self.documentation),
            repository: opt_view(self.repository),
            readme: opt_view(self.readme),
            max_upload_size: self.max_upload_size,
            keywords: seq_views(self.keywords@),
            categories: seq_views(self.categories@),
        }
    }
}

/// One immutable published release of a package.
pub struct Version {
    /// Equal to the version's position in the version table.
    pub id: u64,
    pub package_id: u64,
    /// The semantic-version string, unique within the package.
    pub num: String,
    pub features: Vec<(String, Vec<String>)>,
    pub license: Option<String>,
    /// Compressed size of the uploaded archive.
    pub size: u64,
    pub published_by: u64,
    /// Lowercase hex SHA-256 of the archive bytes.
    pub checksum: String,
    pub links: Option<String>,
    pub created_at: u64,
}

#[verifier::ext_equal]
pub ghost struct VersionView {
    pub id: u64,
    pub package_id: u64,
    pub num: Seq<char>,
    pub features: Seq<(Seq<char>, Seq<Seq<char>>)>,
    pub license: Option<Seq<char>>,
    pub size: u64,
    pub published_by: u64,
    pub checksum: Seq<char>,
    pub links: Option<Seq<char>>,
    pub created_at: u64,
}

/// The view of a feature map.
pub open spec fn features_view(f: Seq<(String, Vec<String>)>) -> Seq<(Seq<char>, Seq<Seq<char>>)> {
    f.map_values(|p: (String, Vec<String>)| (p.0@, seq_views(p.1@)))
}

impl View for Version {
    type V = VersionView;

    open spec fn view(&self) -> VersionView {
        VersionView {
            id: self.id,
            package_id: self.package_id,
            num: self.num@,
            features: features_view(self.features@),
            license: opt_view(self.license),
            size: self.size,
            published_by: self.published_by,
            checksum: self.checksum@,
            links: opt_view(self.links),
            created_at: self.created_at,
        }
    }
}

/// The kind of a dependency edge.
#[derive(Clone, Copy, Debug, PartialEq, Eq, Structural)]
pub enum DepKind {
    Normal,
    Build,
    Dev,
}

/// One declared dependency edge of a version.
pub struct DependencyEdge {
    pub version_id: u64,
    /// The referenced package, resolved by exact name.
    pub package_id: u64,
    pub req: String,
    pub kind: DepKind,
    pub optional: bool,
    pub default_features: bool,
    pub features: Vec<String>,
    pub target: Option<String>,
    pub explicit_name: Option<String>,
}

#[verifier::ext_equal]
pub ghost struct DependencyEdgeView {
    pub version_id: u64,
    pub package_id: u64,
    pub req: Seq<char>,
    pub kind: DepKind,
    pub optional: bool,
    pub default_features: bool,
    pub features: Seq<Seq<char>>,
    pub target: Option<Seq<char>>,
    pub explicit_name: Option<Seq<char>>,
}

impl View for DependencyEdge {
    type V = DependencyEdgeView;

    open spec fn view(&self) -> DependencyEdgeView {
        DependencyEdgeView {
            version_id: self.version_id,
            package_id: self.package_id,
            req: self.req@,
            kind: self.kind,
            optional: self.optional,
            default_features: self.default_features,
            features: seq_views(self.features@),
            target: opt_view(self.target),
            explicit_name: opt_view(self.explicit_name),
        }
    }
}

/// An owner of a package: an individual actor or a team.
#[derive(Clone, Copy, Debug, PartialEq, Eq, Structural)]
pub enum OwnerId {
    User(u64),
    Team(u64),
}

/// One ownership entry.
#[derive(Clone, Copy, Debug, PartialEq, Eq, Structural)]
pub struct OwnerEntry {
    pub package_id: u64,
    pub owner: OwnerId,
}

/// An externally verified group identity granting delegated ownership.
pub struct Team {
    /// Equal to the team's position in the team table.
    pub id: u64,
    /// The stable numeric identity: the external organization id.
    pub org_id: u64,
    /// The stable numeric identity: the external team id.
    pub team_id: u64,
    /// The human-facing login, held in case-folded form.
    pub login: String,
}

#[verifier::ext_equal]
pub ghost struct TeamView {
    pub id: u64,
    pub org_id: u64,
    pub team_id: u64,
    pub login: Seq<char>,
}

impl View for Team {
    type V = TeamView;

    open spec fn view(&self) -> TeamView {
        TeamView { id: self.id, org_id: self.org_id, team_id: self.team_id, login: self.login@ }
    }
}

/// The action recorded by a version attribution entry.
#[derive(Clone, Copy, Debug, PartialEq, Eq, Structural)]
pub enum VersionAction {
    Publish,
}

/// The attribution record linking a version to the actor and credential that
/// produced it.
#[derive(Clone, Copy, Debug, PartialEq, Eq, Structural)]
pub struct VersionOwnerAction {
    pub version_id: u64,
    pub user_id: u64,
    pub api_token_id: Option<u64>,
    pub action: VersionAction,
}

/// The payload of a queued follow-up job.
pub enum JobKind {
    /// Render and upload a readme; self-contained so a later consumer needs
    /// no request state.
    RenderReadme {
        version_id: u64,
        readme: String,
        readme_file: String,
        repository: Option<String>,
        pkg_path_in_vcs: Option<String>,
    },
    /// Propagate one package's index file to the content-store replica.
    SyncToIndex { name: String },
}

#[verifier::ext_equal]
pub ghost enum JobKindView {
    RenderReadme {
        version_id: u64,
        readme: Seq<char>,
        readme_file: Seq<char>,
        repository: Option<Seq<char>>,
        pkg_path_in_vcs: Option<Seq<char>>,
    },
    SyncToIndex { name: Seq<char> },
}

impl View for JobKind {
    type V = JobKindView;

    open spec fn view(&self) -> JobKindView {
        match self {
            JobKind::RenderReadme { version_id, readme, readme_file, repository, pkg_path_in_vcs } => JobKindView::RenderReadme {
                version_id: *version_id,
                readme: readme@,
                readme_file: readme_file@,
                repository: opt_view(*repository),
                pkg_path_in_vcs: opt_view(*pkg_path_in_vcs),
            },
            JobKind::SyncToIndex { name } => JobKindView::SyncToIndex { name: name@ },
        }
    }
}

/// A durably queued job, pending until an external consumer takes it.
pub struct Job {
    pub kind: JobKind,
    pub priority: u64,
    pub enqueued_at: u64,
}

#[verifier::ext_equal]
pub ghost struct JobView {
    pub kind: JobKindView,
    pub priority: u64,
    pub enqueued_at: u64,
}

impl View for Job {
    type V = JobView;

    open spec fn view(&self) -> JobView {
        JobView { kind: self.kind@, priority: self.priority, enqueued_at: self.enqueued_at }
    }
}

/// The priority given to queued readme-render work.
pub const PRIORITY_RENDER_README: u64 = 50;

/// Registry-wide configuration.
#[derive(Clone, Copy, Debug, PartialEq, Eq, Structural)]
pub struct RegistryConfig {
    /// Ceiling on the compressed size of an upload, absent an override.
    pub max_upload_size: u64,
    /// Ceiling on the decompressed size of an upload.
    pub max_unpack_size: u64,
    /// Optional ceiling on versions of one package per rolling day.
    pub new_version_rate_limit: Option<u64>,
    /// Token bucket for first publishes of new names.
    pub publish_new_bucket: BucketConfig,
    /// Token bucket for publishes of further versions.
    pub publish_update_bucket: BucketConfig,
}

impl RegistryConfig {
    pub open spec fn wf(self) -> bool {
        self.publish_new_bucket.wf() && self.publish_update_bucket.wf()
    }

    /// The bucket configuration that applies to an action kind.
    pub open spec fn spec_bucket_for(self, action: LimitedAction) -> BucketConfig {
        match action {
            LimitedAction::PublishNew => self.publish_new_bucket,
            LimitedAction::PublishUpdate => self.publish_update_bucket,
        }
    }

    pub fn bucket_for(&self, action: LimitedAction) -> (r: BucketConfig)
        ensures
            r == self.spec_bucket_for(action),
    {
        match action {
            LimitedAction::PublishNew => self.publish_new_bucket,
            LimitedAction::PublishUpdate => self.publish_update_bucket,
        }
    }
}

/// The authoritative record store.
pub struct Registry {
    pub config: RegistryConfig,
    pub packages: Vec<Package>,
    pub versions: Vec<Version>,
    pub dependencies: Vec<DependencyEdge>,
    pub owners: Vec<OwnerEntry>,
    pub teams: Vec<Team>,
    /// Names no one may register, matched canonically.
    pub reserved_names: Vec<String>,
    /// The category taxonomy; unknown categories become warnings.
    pub known_categories: Vec<String>,
    pub actions: Vec<VersionOwnerAction>,
    pub jobs: Vec<Job>,
    pub buckets: Vec<Bucket>,
}

#[verifier::ext_equal]
pub ghost struct RegistryView {
    pub config: RegistryConfig,
    pub packages: Seq<PackageView>,
    pub versions: Seq<VersionView>,
    pub dependencies: Seq<DependencyEdgeView>,
    pub owners: Seq<OwnerEntry>,
    pub teams: Seq<TeamView>,
    pub reserved_names: Seq<Seq<char>>,
    pub known_categories: Seq<Seq<char>>,
    pub actions: Seq<VersionOwnerAction>,
    pub jobs: Seq<JobView>,
    pub buckets: Seq<Bucket>,
}

impl View for Registry {
    type V = RegistryView;

    open spec fn view(&self) -> RegistryView {
        RegistryView {
            config: self.config,
            packages: self.packages@.map_values(|p: Package| p@),
            versions: self.versions@.map_values(|v: Version| v@),
            dependencies: self.dependencies@.map_values(|d: DependencyEdge| d@),
            owners: self.owners@,
            teams: self.teams@.map_values(|t: Team| t@),
            reserved_names: seq_views(self.reserved_names@),
            known_categories: seq_views(self.known_categories@),
            actions: self.actions@,
            jobs: self.jobs@.map_values(|j: Job| j@),
            buckets: self.buckets@,
        }
    }
}

impl RegistryView {
    /// Whether some package is registered under the canonical form of `name`.
    pub open spec fn has_package(self, name: Seq<char>) -> bool {
        exists|i: int| 0 <= i < self.packages.len() && canon_eq(#[trigger] self.packages[i].name, name)
    }

    /// The position of the package registered under the canonical form of
    /// `name`; meaningful only when `has_package` holds (under
    /// well-formedness the position is unique).
    pub open spec fn package_idx(self, name: Seq<char>) -> int {
        choose|i: int| 0 <= i < self.packages.len() && canon_eq(#[trigger] self.packages[i].name, name)
    }

    /// Whether some package is registered under exactly `name`.
    pub open spec fn has_exact_package(self, name: Seq<char>) -> bool {
        exists|i: int| 0 <= i < self.packages.len() && #[trigger] self.packages[i].name == name
    }

    /// The position of the package registered under exactly `name`.
    pub open spec fn exact_package_idx(self, name: Seq<char>) -> int {
        choose|i: int| 0 <= i < self.packages.len() && #[trigger] self.packages[i].name == name
    }

    /// Whether `name` is reserved, matched canonically.
    pub open spec fn name_reserved(self, name: Seq<char>) -> bool {
        exists|i: int|
            0 <= i < self.reserved_names.len() && canon_eq(#[trigger] self.reserved_names[i], name)
    }

    /// Whether a package already has a version numbered `num`.
    pub open spec fn has_version(self, package_id: u64, num: Seq<char>) -> bool {
        exists|i: int|
            0 <= i < self.versions.len() && (#[trigger] self.versions[i]).package_id == package_id
                && self.versions[i].num == num
    }

    /// The versions of one package, in publish order.
    pub open spec fn versions_of(self, package_id: u64) -> Seq<VersionView> {
        versions_with_package(self.versions, package_id)
    }

    /// How many versions of one package were created inside the rolling
    /// 24-hour window ending at `now`.
    pub open spec fn versions_published_since(self, package_id: u64, since: u64) -> int {
        self.versions.filter(
            |v: VersionView| v.package_id == package_id && v.created_at > since,
        ).len() as int
    }

    /// Whether `category` is part of the taxonomy.
    pub open spec fn known_category(self, category: Seq<char>) -> bool {
        in_taxonomy(self.known_categories, category)
    }

    /// The direct individual owners of a package.
    pub open spec fn user_owns(self, package_id: u64, user_id: u64) -> bool {
        self.owners.contains(OwnerEntry { package_id, owner: OwnerId::User(user_id) })
    }

    /// Whether a team owns a package.
    pub open spec fn team_owns(self, package_id: u64, team_idx: u64) -> bool {
        self.owners.contains(OwnerEntry { package_id, owner: OwnerId::Team(team_idx) })
    }

    /// Well-formedness of the record store.
    pub open spec fn wf(self) -> bool {
        &&& self.config.wf()
        &&& forall|i: int|
            0 <= i < self.packages.len() ==> (#[trigger] self.packages[i]).id == i as u64
        &&& forall|i: int, j: int|
            0 <= i < j < self.packages.len() ==> !canon_eq(
                self.packages[i].name,
                self.packages[j].name,
            )
        &&& forall|i: int|
            0 <= i < self.versions.len() ==> (#[trigger] self.versions[i]).id == i as u64
        &&& forall|i: int|
            0 <= i < self.versions.len() ==> (#[trigger] self.versions[i]).package_id
                < self.packages.len()
        &&& forall|i: int, j: int|
            0 <= i < j < self.versions.len() ==> !(self.versions[i].package_id
                == self.versions[j].package_id && self.versions[i].num == self.versions[j].num)
        &&& forall|i: int| 0 <= i < self.teams.len() ==> (#[trigger] self.teams[i]).id == i as u64
        &&& forall|i: int, j: int|
            0 <= i < j < self.teams.len() ==> !(self.teams[i].org_id == self.teams[j].org_id
                && self.teams[i].team_id == self.teams[j].team_id)
        &&& forall|i: int|
            0 <= i < self.teams.len() ==> lower_seq((#[trigger] self.teams[i]).login)
                == self.teams[i].login
        &&& forall|i: int|
            0 <= i < self.owners.len() ==> (#[trigger] self.owners[i]).package_id
                < self.packages.len()
        &&& forall|i: int|
            0 <= i < self.owners.len() ==> match (#[trigger] self.owners[i]).owner {
                OwnerId::User(_) => true,
                OwnerId::Team(t) => t < self.teams.len(),
            }
        &&& forall|i: int, j: int|
            0 <= i < j < self.owners.len() ==> self.owners[i] != self.owners[j]
        &&& forall|i: int|
            0 <= i < self.dependencies.len() ==> (#[trigger] self.dependencies[i]).package_id
                < self.packages.len() && self.dependencies[i].version_id < self.versions.len()
        &&& forall|i: int|
            0 <= i < self.actions.len() ==> (#[trigger] self.actions[i]).version_id
                < self.versions.len()
        &&& forall|i: int, j: int|
            0 <= i < j < self.buckets.len() ==> !(self.buckets[i].user_id
                == self.buckets[j].user_id && self.buckets[i].action == self.buckets[j].action)
    }
}

impl Registry {
    /// A registry with no records, under the given configuration.
    pub fn new(config: RegistryConfig) -> (r: Registry)
        requires
            config.wf(),
        ensures
            r@.wf(),
            r@.config == config,
            r@.packages.len() == 0,
            r@.versions.len() == 0,
            r@.dependencies.len() == 0,
            r@.owners.len() == 0,
            r@.teams.len() == 0,
            r@.reserved_names.len() == 0,
            r@.known_categories.len() == 0,
            r@.actions.len() == 0,
            r@.jobs.len() == 0,
            r@.buckets.len() == 0,
    {
        Registry {
            config,
            packages: Vec::new(),
            versions: Vec::new(),
            dependencies: Vec::new(),
            owners: Vec::new(),
            teams: Vec::new(),
            reserved_names: Vec::new(),
            known_categories: Vec::new(),
            actions: Vec::new(),
            jobs: Vec::new(),
            buckets: Vec::new(),
        }
    }

    /// Finds the package registered under the canonical form of `name`.
    pub fn find_package(&self, name: &str) -> (r: Option<usize>)
        ensures
            match r {
                Some(i) => i < self@.packages.len() && canon_eq(self@.packages[i as int].name, name@),
                None => !self@.has_package(name@),
            },
            r is Some <==> self@.has_package(name@),
    {
        let canon = crate::strutil::canon_crate_name(name);
        let n = self.packages.len();
        let mut i: usize = 0;
        while i < n
            invariant
                n == self@.packages.len(),
                i <= n,
                canon@ == canon_seq(name@),
                forall|j: int| 0 <= j < i ==> !canon_eq(#[trigger] self@.packages[j].name, name@),
            decreases n - i,
        {
            let pc = crate::strutil::canon_crate_name(self.packages[i].name.as_str());
            if pc == canon {
                assert(canon_eq(self@.packages[i as int].name, name@));
                return Some(i);
            }
            assert(!canon_eq(self@.packages[i as int].name, name@));
            i = i + 1;
        }
        None
    }

    /// Finds the package registered under exactly `name`; dependency edges
    /// must reference the literal registered name.
    pub fn find_package_exact(&self, name: &str) -> (r: Option<usize>)
        ensures
            match r {
                Some(i) => i < self@.packages.len() && self@.packages[i as int].name == name@,
                None => !self@.has_exact_package(name@),
            },
            r is Some <==> self@.has_exact_package(name@),
    {
        let name_s = String::from_str(name);
        let n = self.packages.len();
        let mut i: usize = 0;
        while i < n
            invariant
                n == self@.packages.len(),
                i <= n,
                name_s@ == name@,
                forall|j: int| 0 <= j < i ==> (#[trigger] self@.packages[j].name) != name@,
            decreases n - i,
        {
            if self.packages[i].name == name_s {
                assert(self@.packages[i as int].name == name@);
                return Some(i);
            }
            i = i + 1;
        }
        None
    }

    /// Whether `name` is reserved, matched canonically.
    pub fn is_reserved_name(&self, name: &str) -> (r: bool)
        ensures
            r == self@.name_reserved(name@),
    {
        let canon = crate::strutil::canon_crate_name(name);
        let n = self.reserved_names.len();
        let mut i: usize = 0;
        while i < n
            invariant
                n == self@.reserved_names.len(),
                i <= n,
                canon@ == canon_seq(name@),
                forall|j: int| 0 <= j < i ==> !canon_eq(#[trigger] self@.reserved_names[j], name@),
            decreases n - i,
        {
            let rc = crate::strutil::canon_crate_name(self.reserved_names[i].as_str());
            if rc == canon {
                assert(canon_eq(self@.reserved_names[i as int], name@));
                return true;
            }
            assert(!canon_eq(self@.reserved_names[i as int], name@));
            i = i + 1;
        }
        false
    }

    /// Whether the package already has a version numbered `num`.
    pub fn has_version(&self, package_id: u64, num: &str) -> (r: bool)
        ensures
            r == self@.has_version(package_id, num@),
    {
        let num_s = String::from_str(num);
        let n = self.versions.len();
        let mut i: usize = 0;
        while i < n
            invariant
                n == self@.versions.len(),
                i <= n,
                num_s@ == num@,
                forall|j: int|
                    0 <= j < i ==> !((#[trigger] self@.versions[j]).package_id == package_id
                        && self@.versions[j].num == num@),
            decreases n - i,
        {
            if self.versions[i].package_id == package_id && self.versions[i].num == num_s {
                assert((self@.versions[i as int]).package_id == package_id
                    && self@.versions[i as int].num == num@);
                return true;
            }
            i = i + 1;
        }
        false
    }

    /// Counts the versions of one package created strictly after `since`
    /// (the start of the rolling 24-hour window).
    pub fn count_versions_published_since(&self, package_id: u64, since: u64) -> (r: usize)
        ensures
            r as int == self@.versions_published_since(package_id, since),
    {
        let n = self.versions.len();
        let mut count: usize = 0;
        let mut i: usize = 0;
        while i < n
            invariant
                n == self@.versions.len(),
                i <= n,
                count as int == self@.versions.take(i as int).filter(
                    |v: VersionView| v.package_id == package_id && v.created_at > since,
                ).len(),
                count <= i,
            decreases n - i,
        {
            reveal(Seq::filter);
            assert(self@.versions.take(i + 1).drop_last() == self@.versions.take(i as int));
            if self.versions[i].package_id == package_id && self.versions[i].created_at > since {
                count = count + 1;
            }
            i = i + 1;
        }
        assert(self@.versions.take(n as int) == self@.versions);
        count
    }

    /// Whether the user is a direct individual owner of the package.
    pub fn user_owns(&self, package_id: u64, user_id: u64) -> (r: bool)
        ensures
            r == self@.user_owns(package_id, user_id),
    {
        let n = self.owners.len();
        let mut i: usize = 0;
        while i < n
            invariant
                n == self@.owners.len(),
                i <= n,
                forall|j: int|
                    0 <= j < i ==> self@.owners[j] != (OwnerEntry {
                        package_id,
                        owner: OwnerId::User(user_id),
                    }),
            decreases n - i,
        {
            let e = self.owners[i];
            if e.package_id == package_id {
                if let OwnerId::User(u) = e.owner {
                    if u == user_id {
                        assert(self@.owners.contains(
                            OwnerEntry { package_id, owner: OwnerId::User(user_id) },
                        )) by {
                            assert(self@.owners[i as int] == OwnerEntry {
                                package_id,
                                owner: OwnerId::User(user_id),
                            });
                        }
                        return true;
                    }
                }
            }
            i = i + 1;
        }
        assert(!self@.owners.contains(OwnerEntry { package_id, owner: OwnerId::User(user_id) }));
        false
    }
}

} // verus!
