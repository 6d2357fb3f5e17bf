//! The publish pipeline: one race-safe, atomic create-or-update of a package
//! record, its new version, its dependency edges, its keyword and category
//! associations, its attribution record and its queued follow-up work.
//!
//! The pipeline debits the actor's rate-limit token first, bounds the upload
//! before the archive validator's verdict is even consulted, validates the
//! manifest, and then runs the transaction: reserved-name check, insert or
//! fall back to update, a rights re-check against the resolved package row,
//! the case-drift check, the per-package daily version cap, version
//! uniqueness, the dependency batch and the queued jobs. A rejection anywhere
//! leaves every record unchanged; only the already-debited token stays spent.

use vstd::prelude::*;

use crate::archive::{maximums, spec_maximums, ArchiveError, ArchiveErrorView, ManifestInfo,
    ManifestInfoView};
use crate::deps::{add_dependencies, clone_opt_string, clone_string_vec, dep_edges_of,
    first_dep_error, DepError, DepErrorView, DependencyDeclaration, DependencyDeclarationView};
use crate::ratelimit::{check_rate_limit, rate_allowed, spec_bucket_idx, spec_buckets_after,
    spec_retry_after, LimitedAction};
use crate::registry::{in_taxonomy, opt_view, Job, JobKind, JobKindView, JobView, OwnerEntry,
    OwnerId, Package, PackageView, Registry, RegistryView, Version, VersionAction,
    VersionOwnerAction, VersionView, PRIORITY_RENDER_README};
use crate::rights::{spec_rights, Capability, MembershipAnswer, RightsError};
use crate::validate::{categories_rejection, check_required_fields, keywords_rejection,
    license_rejection, normalize_license, required_fields_rejection, seq_views, stored_license,
    url_rejection, validate_category_count, validate_keywords, validate_url, ValidateError,
    ValidateErrorView};

verus! {

/// The length of the rolling window for the per-package version cap.
pub const SECONDS_PER_DAY: u64 = 86400;

/// The metadata document of a publish request.
pub struct PublishMetadata {
    pub name: String,
    pub vers: String,
    pub deps: Vec<DependencyDeclaration>,
    pub features: Vec<(String, Vec<String>)>,
    pub readme: Option<String>,
    pub readme_file: Option<String>,
}

#[verifier::ext_equal]
pub ghost struct PublishMetadataView {
    pub name: Seq<char>,
    pub vers: Seq<char>,
    pub deps: Seq<DependencyDeclarationView>,
    pub features: Seq<(Seq<char>, Seq<Seq<char>>)>,
    pub readme: Option<Seq<char>>,
    pub readme_file: Option<Seq<char>>,
}

impl View for PublishMetadata {
    type V = PublishMetadataView;

    open spec fn view(&self) -> PublishMetadataView {
        PublishMetadataView {
            name: self.name@,
            vers: self.vers@,
            deps: self.deps@.map_values(|d: DependencyDeclaration| d@),
            features: crate::registry::features_view(self.features@),
            readme: opt_view(self.readme),
            readme_file: opt_view(self.readme_file),
        }
    }
}

/// One authenticated publish request.
pub struct PublishRequest {
    pub user_id: u64,
    /// The credential used, recorded in the attribution entry.
    pub api_token_id: Option<u64>,
    pub metadata: PublishMetadata,
    /// The external identity collaborator's answers about the actor's team
    /// memberships.
    pub memberships: Vec<MembershipAnswer>,
}

#[verifier::ext_equal]
pub ghost struct PublishRequestView {
    pub user_id: u64,
    pub api_token_id: Option<u64>,
    pub metadata: PublishMetadataView,
    pub memberships: Seq<MembershipAnswer>,
}

impl View for PublishRequest {
    type V = PublishRequestView;

    open spec fn view(&self) -> PublishRequestView {
        PublishRequestView {
            user_id: self.user_id,
            api_token_id: self.api_token_id,
            metadata: self.metadata@,
            memberships: self.memberships@,
        }
    }
}

/// What a successful publish reports back.
#[derive(Debug)]
pub struct PublishOutput {
    /// The registered name, as stored.
    pub krate_name: String,
    pub vers: String,
    /// Categories that are not part of the taxonomy: stored nowhere,
    /// reported as warnings.
    pub invalid_categories: Vec<String>,
}

#[derive(Debug)]
pub enum PublishError {
    /// The actor's token bucket for this action kind is empty.
    RateLimited { retry_after: u64 },
    /// The compressed upload overruns its ceiling.
    MaxUploadSize { max: u64 },
    /// The archive validator rejected the upload.
    Archive { err: ArchiveError },
    /// A metadata rule rejected the manifest.
    Validate { err: ValidateError },
    /// The name is reserved.
    ReservedName,
    /// An owning team's membership lookup failed.
    MembershipLookupFailed,
    /// The package exists and the actor is not an owner.
    MissingRights,
    /// The requested name differs from the registered one in casing or
    /// punctuation.
    PreviouslyNamed { name: String },
    /// The per-package daily version cap is reached.
    TooManyVersionsToday,
    /// The package already has this version.
    DuplicateVersion { num: String },
    /// A dependency declaration was rejected.
    Dependency { err: DepError },
}

#[verifier::ext_equal]
pub ghost enum PublishErrorView {
    RateLimited { retry_after: u64 },
    MaxUploadSize { max: u64 },
    Archive { err: ArchiveErrorView },
    Validate { err: ValidateErrorView },
    ReservedName,
    MembershipLookupFailed,
    MissingRights,
    PreviouslyNamed { name: Seq<char> },
    TooManyVersionsToday,
    DuplicateVersion { num: Seq<char> },
    Dependency { err: DepErrorView },
}

impl View for PublishError {
    type V = PublishErrorView;

    open spec fn view(&self) -> PublishErrorView {
        match self {
            PublishError::RateLimited { retry_after } => PublishErrorView::RateLimited {
                retry_after: *retry_after,
            },
            PublishError::MaxUploadSize { max } => PublishErrorView::MaxUploadSize { max: *max },
            PublishError::Archive { err } => PublishErrorView::Archive { err: err@ },
            PublishError::Validate { err } => PublishErrorView::Validate { err: err@ },
            PublishError::ReservedName => PublishErrorView::ReservedName,
            PublishError::MembershipLookupFailed => PublishErrorView::MembershipLookupFailed,
            PublishError::MissingRights => PublishErrorView::MissingRights,
            PublishError::PreviouslyNamed { name } => PublishErrorView::PreviouslyNamed {
                name: name@,
            },
            PublishError::TooManyVersionsToday => PublishErrorView::TooManyVersionsToday,
            PublishError::DuplicateVersion { num } => PublishErrorView::DuplicateVersion {
                num: num@,
            },
            PublishError::Dependency { err } => PublishErrorView::Dependency { err: err@ },
        }
    }
}

/// Which action kind a request draws its token from: the first publish of a
/// name and a version update have distinct buckets.
pub open spec fn spec_action(reg: RegistryView, name: Seq<char>) -> LimitedAction {
    if reg.has_package(name) {
        LimitedAction::PublishUpdate
    } else {
        LimitedAction::PublishNew
    }
}

/// The per-package upload ceiling override, when the package exists.
pub open spec fn spec_upload_override(reg: RegistryView, name: Seq<char>) -> Option<u64> {
    if reg.has_package(name) {
        reg.packages[reg.package_idx(name)].max_upload_size
    } else {
        None
    }
}

/// The metadata rejection, if any, with the rules checked in order:
/// required fields, license, the three URL fields, keywords, categories.
pub open spec fn metadata_rejection(m: ManifestInfoView) -> Option<ValidateErrorView> {
    if required_fields_rejection(m.description, m.license, m.license_file) is Some {
        required_fields_rejection(m.description, m.license, m.license_file)
    } else if license_rejection(m.license) is Some {
        license_rejection(m.license)
    } else if url_rejection(m.homepage, "homepage"@) is Some {
        url_rejection(m.homepage, "homepage"@)
    } else if url_rejection(m.documentation, "documentation"@) is Some {
        url_rejection(m.documentation, "documentation"@)
    } else if url_rejection(m.repository, "repository"@) is Some {
        url_rejection(m.repository, "repository"@)
    } else if keywords_rejection(m.keywords) is Some {
        keywords_rejection(m.keywords)
    } else {
        categories_rejection(m.categories)
    }
}

/// The categories that are stored: the declared ones that the taxonomy
/// knows, in declaration order.
pub open spec fn spec_known_categories(tax: Seq<Seq<char>>, cs: Seq<Seq<char>>) -> Seq<Seq<char>> {
    cs.filter(|c: Seq<char>| in_taxonomy(tax, c))
}

/// The declared categories the taxonomy does not know: warnings.
pub open spec fn spec_unknown_categories(tax: Seq<Seq<char>>, cs: Seq<Seq<char>>) -> Seq<
    Seq<char>,
> {
    cs.filter(|c: Seq<char>| !in_taxonomy(tax, c))
}

/// The package row a first publish creates.
pub open spec fn spec_new_package(
    reg: RegistryView,
    id: u64,
    name: Seq<char>,
    m: ManifestInfoView,
    readme: Option<Seq<char>>,
) -> PackageView {
    PackageView {
        id,
        name,
        description: m.description,
        homepage: m.homepage,
        documentation: m.documentation,
        repository: m.repository,
        readme,
        max_upload_size: None,
        keywords: m.keywords,
        categories: spec_known_categories(reg.known_categories, m.categories),
    }
}

/// The package row after the fallback update path: the mutable metadata
/// fields and the keyword and category associations are replaced; identity
/// and the upload override stay.
pub open spec fn spec_updated_package(
    reg: RegistryView,
    p: PackageView,
    m: ManifestInfoView,
    readme: Option<Seq<char>>,
) -> PackageView {
    PackageView {
        id: p.id,
        name: p.name,
        description: m.description,
        homepage: m.homepage,
        documentation: m.documentation,
        repository: m.repository,
        readme,
        max_upload_size: p.max_upload_size,
        keywords: m.keywords,
        categories: spec_known_categories(reg.known_categories, m.categories),
    }
}

/// The package table dependency edges resolve against: on a first publish
/// the just-created package is itself visible.
pub open spec fn spec_dep_table(
    reg: RegistryView,
    req: PublishRequestView,
    m: ManifestInfoView,
) -> Seq<PackageView> {
    if reg.has_package(req.metadata.name) {
        reg.packages
    } else {
        reg.packages.push(
            spec_new_package(
                reg,
                reg.packages.len() as u64,
                req.metadata.name,
                m,
                req.metadata.readme,
            ),
        )
    }
}

/// The start of the rolling 24-hour window ending at `now`.
pub open spec fn spec_window_start(now: u64) -> u64 {
    if now >= SECONDS_PER_DAY {
        (now - SECONDS_PER_DAY) as u64
    } else {
        0
    }
}

/// Whether the per-package daily version cap rules out another version.
pub open spec fn daily_cap_reached(reg: RegistryView, package_id: u64, now: u64) -> bool {
    match reg.config.new_version_rate_limit {
        Some(limit) => reg.versions_published_since(package_id, spec_window_start(now))
            >= limit as int,
        None => false,
    }
}

/// The version row a successful publish creates.
pub open spec fn spec_new_version(
    id: u64,
    package_id: u64,
    req: PublishRequestView,
    m: ManifestInfoView,
    tarball: Seq<u8>,
    now: u64,
) -> VersionView {
    VersionView {
        id,
        package_id,
        num: req.metadata.vers,
        features: req.metadata.features,
        license: stored_license(m.license, m.license_file is Some),
        size: tarball.len() as u64,
        published_by: req.user_id,
        checksum: crate::digest::sha256_hex_of(tarball),
        links: m.links,
        created_at: now,
    }
}

/// The follow-up work a successful publish enqueues, in order: a
/// readme-render job when a non-empty readme was supplied, then the
/// index-sync job for the package.
pub open spec fn spec_enqueued_jobs(
    req: PublishRequestView,
    m: ManifestInfoView,
    version_id: u64,
    name: Seq<char>,
    now: u64,
) -> Seq<JobView> {
    let readme_jobs: Seq<JobView> = match req.metadata.readme {
        Some(r) => if r.len() > 0 {
            seq![
                JobView {
                    kind: JobKindView::RenderReadme {
                        version_id,
                        readme: r,
                        readme_file: match req.metadata.readme_file {
                            Some(f) => f,
                            None => "README.md"@,
                        },
                        repository: m.repository,
                        pkg_path_in_vcs: m.pkg_path_in_vcs,
                    },
                    priority: PRIORITY_RENDER_README,
                    enqueued_at: now,
                },
            ]
        } else {
            Seq::empty()
        },
        None => Seq::empty(),
    };
    readme_jobs + seq![
        JobView {
            kind: JobKindView::SyncToIndex { name },
            priority: 0,
            enqueued_at: now,
        },
    ]
}

/// The transaction-stage rejection, if any, with the checks in order:
/// reserved name, the rights re-check against the resolved package row, case
/// drift, the daily cap, version uniqueness, the dependency batch.
pub open spec fn txn_rejection(
    reg: RegistryView,
    req: PublishRequestView,
    m: ManifestInfoView,
    now: u64,
) -> Option<PublishErrorView> {
    let name = req.metadata.name;
    if reg.name_reserved(name) {
        Some(PublishErrorView::ReservedName)
    } else {
        let fresh = !reg.has_package(name);
        let pid = if fresh {
            reg.packages.len() as u64
        } else {
            reg.packages[reg.package_idx(name)].id
        };
        let stored_name = if fresh {
            name
        } else {
            reg.packages[reg.package_idx(name)].name
        };
        let rights = if fresh {
            Ok(Capability::Publish)
        } else {
            spec_rights(reg.owners, reg.teams, req.memberships, pid, req.user_id)
        };
        match rights {
            Err(_) => Some(PublishErrorView::MembershipLookupFailed),
            Ok(cap) => if cap.level() < Capability::Publish.level() {
                Some(PublishErrorView::MissingRights)
            } else if stored_name != name {
                Some(PublishErrorView::PreviouslyNamed { name: stored_name })
            } else if daily_cap_reached(reg, pid, now) {
                Some(PublishErrorView::TooManyVersionsToday)
            } else if reg.has_version(pid, req.metadata.vers) {
                Some(PublishErrorView::DuplicateVersion { num: req.metadata.vers })
            } else {
                match first_dep_error(spec_dep_table(reg, req, m), req.metadata.deps) {
                    Some(e) => Some(PublishErrorView::Dependency { err: e }),
                    None => None,
                }
            },
        }
    }
}

/// The first rejection of the whole pipeline, if any: rate limit, upload
/// ceiling (whatever the archive validator would say), the validator's own
/// verdict, the metadata rules, then the transaction stage.
pub open spec fn publish_rejection(
    reg: RegistryView,
    req: PublishRequestView,
    tarball: Seq<u8>,
    archive: Result<ManifestInfoView, ArchiveErrorView>,
    now: u64,
) -> Option<PublishErrorView> {
    let name = req.metadata.name;
    let action = spec_action(reg, name);
    let bcfg = reg.config.spec_bucket_for(action);
    if !rate_allowed(bcfg, reg.buckets, req.user_id, action, now) {
        Some(
            PublishErrorView::RateLimited {
                retry_after: spec_retry_after(
                    bcfg,
                    reg.buckets[spec_bucket_idx(reg.buckets, req.user_id, action)],
                    now,
                ) as u64,
            },
        )
    } else {
        let maxs = spec_maximums(
            spec_upload_override(reg, name),
            reg.config.max_upload_size,
            reg.config.max_unpack_size,
        );
        if tarball.len() > maxs.max_upload_size {
            Some(PublishErrorView::MaxUploadSize { max: maxs.max_upload_size })
        } else {
            match archive {
                Err(e) => Some(PublishErrorView::Archive { err: e }),
                Ok(m) => match metadata_rejection(m) {
                    Some(e) => Some(PublishErrorView::Validate { err: e }),
                    None => txn_rejection(reg, req, m, now),
                },
            }
        }
    }
}

/// Whether the pipeline accepts the request.
pub open spec fn publish_accepts(
    reg: RegistryView,
    req: PublishRequestView,
    tarball: Seq<u8>,
    archive: Result<ManifestInfoView, ArchiveErrorView>,
    now: u64,
) -> bool {
    publish_rejection(reg, req, tarball, archive, now) is None
}

/// The registry after an accepted publish.
pub open spec fn publish_success_state(
    reg: RegistryView,
    req: PublishRequestView,
    m: ManifestInfoView,
    tarball: Seq<u8>,
    now: u64,
) -> RegistryView {
    let name = req.metadata.name;
    let action = spec_action(reg, name);
    let bcfg = reg.config.spec_bucket_for(action);
    let fresh = !reg.has_package(name);
    let idx = reg.package_idx(name);
    let pid = if fresh {
        reg.packages.len() as u64
    } else {
        reg.packages[idx].id
    };
    let vid = reg.versions.len() as u64;
    RegistryView {
        config: reg.config,
        packages: if fresh {
            reg.packages.push(spec_new_package(reg, pid, name, m, req.metadata.readme))
        } else {
            reg.packages.update(
                idx,
                spec_updated_package(reg, reg.packages[idx], m, req.metadata.readme),
            )
        },
        versions: reg.versions.push(spec_new_version(vid, pid, req, m, tarball, now)),
        dependencies: reg.dependencies + dep_edges_of(
            spec_dep_table(reg, req, m),
            vid,
            req.metadata.deps,
        ),
        owners: if fresh {
            reg.owners.push(OwnerEntry { package_id: pid, owner: OwnerId::User(req.user_id) })
        } else {
            reg.owners
        },
        teams: reg.teams,
        reserved_names: reg.reserved_names,
        known_categories: reg.known_categories,
        actions: reg.actions.push(
            VersionOwnerAction {
                version_id: vid,
                user_id: req.user_id,
                api_token_id: req.api_token_id,
                action: VersionAction::Publish,
            },
        ),
        jobs: reg.jobs + spec_enqueued_jobs(req, m, vid, name, now),
        buckets: spec_buckets_after(bcfg, reg.buckets, req.user_id, action, now),
    }
}

/// The registry after a rejected publish: untouched, except that any
/// rejection past the rate limiter leaves the debited token spent.
pub open spec fn publish_error_state(
    reg: RegistryView,
    req: PublishRequestView,
    e: PublishErrorView,
    now: u64,
) -> RegistryView {
    let action = spec_action(reg, req.metadata.name);
    let bcfg = reg.config.spec_bucket_for(action);
    if e is RateLimited {
        reg
    } else {
        RegistryView {
            buckets: spec_buckets_after(bcfg, reg.buckets, req.user_id, action, now),
            ..reg
        }
    }
}

/// An accepted publish preserves the record store's well-formedness.
pub proof fn lemma_success_state_wf(
    reg: RegistryView,
    req: PublishRequestView,
    m: ManifestInfoView,
    tarball: Seq<u8>,
    now: u64,
)
    requires
        reg.wf(),
        publish_rejection(reg, req, tarball, Ok(m), now) is None,
        reg.versions.len() < 0xffff_ffff_ffff_ffff,
        !reg.has_package(req.metadata.name) ==> reg.packages.len() < 0xffff_ffff_ffff_ffff,
    ensures
        publish_success_state(reg, req, m, tarball, now).wf(),
{
    let name = req.metadata.name;
    let action = spec_action(reg, name);
    let bcfg = reg.config.spec_bucket_for(action);
    let fresh = !reg.has_package(name);
    let idx = reg.package_idx(name);
    let pid = if fresh {
        reg.packages.len() as u64
    } else {
        reg.packages[idx].id
    };
    let vid = reg.versions.len() as u64;
    let post = publish_success_state(reg, req, m, tarball, now);
    let ds = req.metadata.deps;
    let table = spec_dep_table(reg, req, m);
    let edges = dep_edges_of(table, vid, ds);

    // The dependency batch was accepted.
    assert(first_dep_error(table, ds) is None);
    crate::deps::lemma_first_dep_error_none(table, ds);

    // Packages: positions keep their ids, and canonical names stay distinct.
    assert(forall|i: int| 0 <= i < post.packages.len() ==> (#[trigger] post.packages[i]).id == i as u64);
    assert forall|i: int, j: int| 0 <= i < j < post.packages.len() implies !crate::strutil::canon_eq(
        post.packages[i].name,
        post.packages[j].name,
    ) by {
        if fresh && j == reg.packages.len() as int {
            assert(post.packages[i].name == reg.packages[i].name);
            assert(!crate::strutil::canon_eq(reg.packages[i].name, name));
        } else {
            assert(post.packages[i].name == reg.packages[i].name);
            assert(post.packages[j].name == reg.packages[j].name);
        }
    }

    // The dependency table has the same names and ids as the new table.
    assert(table.len() == post.packages.len());
    assert(forall|i: int| 0 <= i < table.len() ==> (#[trigger] table[i]).id == i as u64);

    // Versions: ids, package references, and (package, version) uniqueness.
    assert(forall|i: int| 0 <= i < post.versions.len() ==> (#[trigger] post.versions[i]).id == i as u64);
    assert(pid < post.packages.len());
    assert(forall|i: int|
        0 <= i < post.versions.len() ==> (#[trigger] post.versions[i]).package_id
            < post.packages.len());
    assert forall|i: int, j: int| 0 <= i < j < post.versions.len() implies !(post.versions[i].package_id
        == post.versions[j].package_id && post.versions[i].num == post.versions[j].num) by {
        if j == reg.versions.len() as int {
            assert(post.versions[i] == reg.versions[i]);
            if fresh {
                assert(reg.versions[i].package_id < reg.packages.len());
                assert(pid as int == reg.packages.len() as int);
            } else {
                assert(!reg.has_version(pid, req.metadata.vers));
                assert(!(reg.versions[i].package_id == pid && reg.versions[i].num
                    == req.metadata.vers));
            }
        } else {
            assert(post.versions[i] == reg.versions[i]);
            assert(post.versions[j] == reg.versions[j]);
        }
    }

    // Owners: valid references and no duplicate entries.
    assert forall|i: int| 0 <= i < post.owners.len() implies (#[trigger] post.owners[i]).package_id
        < post.packages.len() && match post.owners[i].owner {
        OwnerId::User(_) => true,
        OwnerId::Team(t) => t < post.teams.len(),
    } by {
        if i < reg.owners.len() as int {
            assert(post.owners[i] == reg.owners[i]);
        }
    }
    assert forall|i: int, j: int| 0 <= i < j < post.owners.len() implies post.owners[i]
        != post.owners[j] by {
        if fresh && j == reg.owners.len() as int {
            assert(post.owners[i] == reg.owners[i]);
            assert(reg.owners[i].package_id < reg.packages.len());
            assert(post.owners[j].package_id == pid);
            assert(pid as int == reg.packages.len() as int);
        } else {
            assert(post.owners[i] == reg.owners[i]);
            assert(post.owners[j] == reg.owners[j]);
        }
    }

    // Dependency edges: every edge references a live version and package.
    assert forall|i: int| 0 <= i < post.dependencies.len() implies (#[trigger] post.dependencies[i]).package_id
        < post.packages.len() && post.dependencies[i].version_id < post.versions.len() by {
        if i < reg.dependencies.len() as int {
            assert(post.dependencies[i] == reg.dependencies[i]);
        } else {
            let k = i - reg.dependencies.len() as int;
            assert(post.dependencies[i] == edges[k]);
            assert(edges[k] == crate::deps::spec_dep_edge(table, vid, ds[k]));
            assert(!crate::deps::dep_problem(table, ds[k]));
            assert(crate::deps::has_exact_pkg(table, ds[k].name));
            let e = crate::deps::exact_pkg_idx(table, ds[k].name);
            assert(0 <= e < table.len() && table[e].name == ds[k].name);
            assert(table[e].id == e as u64);
        }
    }

    // Attribution records reference live versions.
    assert(forall|i: int|
        0 <= i < post.actions.len() ==> (#[trigger] post.actions[i]).version_id
            < post.versions.len());

    // Teams are untouched.
    assert(forall|i: int| 0 <= i < post.teams.len() ==> post.teams[i] == reg.teams[i]);

    // Bucket keys stay pairwise distinct.
    crate::ratelimit::lemma_buckets_after_keyed(bcfg, reg.buckets, req.user_id, action, now);
}

impl PublishErrorView {
    /// The stable human-readable message for the rejection.
    pub open spec fn spec_message(self) -> Seq<char> {
        match self {
            PublishErrorView::RateLimited { retry_after } => "too many publish requests; retry after "@
                + crate::strutil::dec_str(retry_after as int) + " seconds"@,
            PublishErrorView::MaxUploadSize { max } => "max upload size is: "@
                + crate::strutil::dec_str(max as int),
            PublishErrorView::Archive { err } => err.spec_message(),
            PublishErrorView::Validate { err } => err.spec_message(),
            PublishErrorView::ReservedName => "cannot upload a crate with a reserved name"@,
            PublishErrorView::MembershipLookupFailed => "could not verify team membership"@,
            PublishErrorView::MissingRights => "this crate exists but you don't seem to be an owner. If you believe this is a mistake, perhaps you need to accept an invitation to be an owner before publishing."@,
            PublishErrorView::PreviouslyNamed { name } => "crate was previously named `"@ + name
                + "`"@,
            PublishErrorView::TooManyVersionsToday => "You have published too many versions of this crate in the last 24 hours"@,
            PublishErrorView::DuplicateVersion { num } => "crate version `"@ + num
                + "` is already uploaded"@,
            PublishErrorView::Dependency { err } => err.spec_message(),
        }
    }
}

impl PublishError {
    pub fn message(&self) -> (r: String)
        ensures
            r@ == self@.spec_message(),
    {
        match self {
            PublishError::RateLimited { retry_after } => {
                let mut s = String::from_str("too many publish requests; retry after ");
                s.append(crate::strutil::u64_to_dec(*retry_after).as_str());
                s.append(" seconds");
                s
            },
            PublishError::MaxUploadSize { max } => {
                let mut s = String::from_str("max upload size is: ");
                s.append(crate::strutil::u64_to_dec(*max).as_str());
                s
            },
            PublishError::Archive { err } => err.message(),
            PublishError::Validate { err } => err.message(),
            PublishError::ReservedName => String::from_str(
                "cannot upload a crate with a reserved name",
            ),
            PublishError::MembershipLookupFailed => String::from_str(
                "could not verify team membership",
            ),
            PublishError::MissingRights => String::from_str(
                "this crate exists but you don't seem to be an owner. If you believe this is a mistake, perhaps you need to accept an invitation to be an owner before publishing.",
            ),
            PublishError::PreviouslyNamed { name } => {
                let mut s = String::from_str("crate was previously named `");
                s.append(name.as_str());
                s.append("`");
                s
            },
            PublishError::TooManyVersionsToday => String::from_str(
                "You have published too many versions of this crate in the last 24 hours",
            ),
            PublishError::DuplicateVersion { num } => {
                let mut s = String::from_str("crate version `");
                s.append(num.as_str());
                s.append("` is already uploaded");
                s
            },
            PublishError::Dependency { err } => err.message(),
        }
    }
}

/// A valid manifest with its required fields present, an available token, an
/// upload within bounds, an unreserved fresh name and an accepted dependency
/// batch publishes successfully, and the resulting package has exactly one
/// version.
pub proof fn lemma_valid_first_publish(
    reg: RegistryView,
    req: PublishRequestView,
    m: ManifestInfoView,
    tarball: Seq<u8>,
    now: u64,
)
    requires
        reg.wf(),
        reg.packages.len() < 0xffff_ffff_ffff_ffff,
        reg.versions.len() < 0xffff_ffff_ffff_ffff,
        !reg.has_package(req.metadata.name),
        rate_allowed(
            reg.config.spec_bucket_for(LimitedAction::PublishNew),
            reg.buckets,
            req.user_id,
            LimitedAction::PublishNew,
            now,
        ),
        tarball.len() <= spec_maximums(
            None,
            reg.config.max_upload_size,
            reg.config.max_unpack_size,
        ).max_upload_size,
        metadata_rejection(m) is None,
        !reg.name_reserved(req.metadata.name),
        !daily_cap_reached(reg, reg.packages.len() as u64, now),
        first_dep_error(spec_dep_table(reg, req, m), req.metadata.deps) is None,
    ensures
        publish_accepts(reg, req, tarball, Ok(m), now),
        publish_success_state(reg, req, m, tarball, now).versions_of(
            reg.packages.len() as u64,
        ).len() == 1,
        publish_success_state(reg, req, m, tarball, now).wf(),
{
    let name = req.metadata.name;
    let pid = reg.packages.len() as u64;
    assert(spec_action(reg, name) == LimitedAction::PublishNew);
    assert(spec_upload_override(reg, name) is None);
    assert(!reg.has_version(pid, req.metadata.vers)) by {
        if reg.has_version(pid, req.metadata.vers) {
            let w = choose|i: int|
                0 <= i < reg.versions.len() && (#[trigger] reg.versions[i]).package_id == pid
                    && reg.versions[i].num == req.metadata.vers;
            assert(reg.versions[w].package_id < reg.packages.len());
        }
    }
    assert(txn_rejection(reg, req, m, now) is None);
    lemma_success_state_wf(reg, req, m, tarball, now);
    let post = publish_success_state(reg, req, m, tarball, now);
    let v = spec_new_version(reg.versions.len() as u64, pid, req, m, tarball, now);
    assert(post.versions == reg.versions.push(v));
    assert(post.versions.drop_last() =~= reg.versions);
    assert forall|i: int| 0 <= i < reg.versions.len() implies (#[trigger] reg.versions[i]).package_id
        != pid by {
        assert(reg.versions[i].package_id < reg.packages.len());
    }
    crate::registry::lemma_versions_with_package_empty(reg.versions, pid);
    assert(post.versions.last() == v && v.package_id == pid);
    assert(post.versions_of(pid) == crate::registry::versions_with_package(
        reg.versions,
        pid,
    ).push(v));
}

/// An upload larger than the ceiling is rejected before the archive
/// validator's verdict is even consulted: the rejection is the same for
/// every verdict.
pub proof fn lemma_oversized_upload_rejected(
    reg: RegistryView,
    req: PublishRequestView,
    tarball: Seq<u8>,
    archive: Result<ManifestInfoView, ArchiveErrorView>,
    now: u64,
)
    requires
        rate_allowed(
            reg.config.spec_bucket_for(spec_action(reg, req.metadata.name)),
            reg.buckets,
            req.user_id,
            spec_action(reg, req.metadata.name),
            now,
        ),
        tarball.len() > spec_maximums(
            spec_upload_override(reg, req.metadata.name),
            reg.config.max_upload_size,
            reg.config.max_unpack_size,
        ).max_upload_size,
    ensures
        publish_rejection(reg, req, tarball, archive, now) == Some(
            PublishErrorView::MaxUploadSize {
                max: spec_maximums(
                    spec_upload_override(reg, req.metadata.name),
                    reg.config.max_upload_size,
                    reg.config.max_unpack_size,
                ).max_upload_size,
            },
        ),
{
}

/// An archive that overruns the decompressed-size ceiling is rejected even
/// when its compressed size is within bounds: the validator's verdict
/// surfaces with its stable message.
pub proof fn lemma_decompression_bomb_rejected(
    reg: RegistryView,
    req: PublishRequestView,
    tarball: Seq<u8>,
    now: u64,
)
    requires
        rate_allowed(
            reg.config.spec_bucket_for(spec_action(reg, req.metadata.name)),
            reg.buckets,
            req.user_id,
            spec_action(reg, req.metadata.name),
            now,
        ),
        tarball.len() <= spec_maximums(
            spec_upload_override(reg, req.metadata.name),
            reg.config.max_upload_size,
            reg.config.max_unpack_size,
        ).max_upload_size,
    ensures
        publish_rejection(reg, req, tarball, Err(ArchiveErrorView::Malformed), now) == Some(
            PublishErrorView::Archive { err: ArchiveErrorView::Malformed },
        ),
        (PublishErrorView::Archive {
            err: ArchiveErrorView::Malformed,
        }).spec_message() == "uploaded tarball is malformed or too large when decompressed"@,
{
}

/// A successful publish leaves the pair of the requested name and version
/// registered.
pub proof fn lemma_published_version_recorded(
    reg: RegistryView,
    req: PublishRequestView,
    m: ManifestInfoView,
    tarball: Seq<u8>,
    now: u64,
)
    requires
        reg.wf(),
        reg.versions.len() < 0xffff_ffff_ffff_ffff,
        !reg.has_package(req.metadata.name) ==> reg.packages.len() < 0xffff_ffff_ffff_ffff,
        publish_rejection(reg, req, tarball, Ok(m), now) is None,
    ensures
        publish_success_state(reg, req, m, tarball, now).wf(),
        publish_success_state(reg, req, m, tarball, now).has_package(req.metadata.name),
        ({
            let post = publish_success_state(reg, req, m, tarball, now);
            post.has_version(
                post.packages[post.package_idx(req.metadata.name)].id,
                req.metadata.vers,
            )
        }),
{
    let name = req.metadata.name;
    lemma_success_state_wf(reg, req, m, tarball, now);
    let post = publish_success_state(reg, req, m, tarball, now);
    let fresh = !reg.has_package(name);
    let idx = if fresh {
        reg.packages.len() as int
    } else {
        reg.package_idx(name)
    };
    let pid = if fresh {
        reg.packages.len() as u64
    } else {
        reg.packages[reg.package_idx(name)].id
    };
    assert(post.packages[idx].name == name);
    assert(post.packages[idx].id == pid);
    assert(post.has_package(name)) by {
        assert(crate::strutil::canon_eq(post.packages[idx].name, name));
    }
    let k = post.package_idx(name);
    assert(0 <= k < post.packages.len() && crate::strutil::canon_eq(post.packages[k].name, name));
    if k != idx {
        if k < idx {
            assert(!crate::strutil::canon_eq(post.packages[k].name, post.packages[idx].name));
        } else {
            assert(!crate::strutil::canon_eq(post.packages[idx].name, post.packages[k].name));
        }
        assert(false);
    }
    let vid = reg.versions.len() as int;
    assert(post.versions[vid].package_id == pid && post.versions[vid].num == req.metadata.vers);
}

/// Publishing the same name and version pair twice fails: version numbers
/// are unique within a package.
pub proof fn lemma_duplicate_version_rejected(
    reg: RegistryView,
    req: PublishRequestView,
    tarball: Seq<u8>,
    m: ManifestInfoView,
    now: u64,
)
    requires
        reg.wf(),
        reg.has_package(req.metadata.name),
        reg.has_version(reg.packages[reg.package_idx(req.metadata.name)].id, req.metadata.vers),
    ensures
        !publish_accepts(reg, req, tarball, Ok(m), now),
{
}

/// The same pair, published twice in a row, is rejected the second time.
pub proof fn lemma_same_pair_twice_rejected(
    reg: RegistryView,
    req: PublishRequestView,
    m: ManifestInfoView,
    tarball: Seq<u8>,
    now: u64,
    req2: PublishRequestView,
    m2: ManifestInfoView,
    tarball2: Seq<u8>,
    now2: u64,
)
    requires
        reg.wf(),
        reg.versions.len() < 0xffff_ffff_ffff_ffff,
        !reg.has_package(req.metadata.name) ==> reg.packages.len() < 0xffff_ffff_ffff_ffff,
        publish_rejection(reg, req, tarball, Ok(m), now) is None,
        req2.metadata.name == req.metadata.name,
        req2.metadata.vers == req.metadata.vers,
    ensures
        !publish_accepts(
            publish_success_state(reg, req, m, tarball, now),
            req2,
            tarball2,
            Ok(m2),
            now2,
        ),
{
    lemma_published_version_recorded(reg, req, m, tarball, now);
    let post = publish_success_state(reg, req, m, tarball, now);
    lemma_duplicate_version_rejected(post, req2, tarball2, m2, now2);
}

/// Publishing a new version of an existing package without ownership fails,
/// with the fixed message that the crate exists but the actor is not an
/// owner.
pub proof fn lemma_missing_rights_rejected(
    reg: RegistryView,
    req: PublishRequestView,
    m: ManifestInfoView,
    tarball: Seq<u8>,
    now: u64,
)
    requires
        reg.has_package(req.metadata.name),
        rate_allowed(
            reg.config.spec_bucket_for(LimitedAction::PublishUpdate),
            reg.buckets,
            req.user_id,
            LimitedAction::PublishUpdate,
            now,
        ),
        tarball.len() <= spec_maximums(
            spec_upload_override(reg, req.metadata.name),
            reg.config.max_upload_size,
            reg.config.max_unpack_size,
        ).max_upload_size,
        metadata_rejection(m) is None,
        !reg.name_reserved(req.metadata.name),
        spec_rights(
            reg.owners,
            reg.teams,
            req.memberships,
            reg.packages[reg.package_idx(req.metadata.name)].id,
            req.user_id,
        ) == Ok::<Capability, RightsError>(Capability::NoAccess),
    ensures
        publish_rejection(reg, req, tarball, Ok(m), now) == Some(PublishErrorView::MissingRights),
        PublishErrorView::MissingRights.spec_message()
            == "this crate exists but you don't seem to be an owner. If you believe this is a mistake, perhaps you need to accept an invitation to be an owner before publishing."@,
{
}

/// Two first publishes race for one never-before-registered name: after the
/// winner commits, exactly one package row exists, the winner is recorded as
/// its individual owner, and the loser — observing the fallback update path
/// — is still held to the post-creation rights check and rejected.
pub proof fn lemma_first_publish_race_single_winner(
    reg: RegistryView,
    req: PublishRequestView,
    m: ManifestInfoView,
    tarball: Seq<u8>,
    now: u64,
    req2: PublishRequestView,
    m2: ManifestInfoView,
    tarball2: Seq<u8>,
    now2: u64,
)
    requires
        reg.wf(),
        reg.packages.len() < 0xffff_ffff_ffff_ffff,
        reg.versions.len() < 0xffff_ffff_ffff_ffff,
        !reg.has_package(req.metadata.name),
        publish_rejection(reg, req, tarball, Ok(m), now) is None,
        crate::strutil::canon_eq(req2.metadata.name, req.metadata.name),
        req2.user_id != req.user_id,
    ensures
        ({
            let post = publish_success_state(reg, req, m, tarball, now);
            &&& post.packages.len() == reg.packages.len() + 1
            &&& post.has_package(req2.metadata.name)
            &&& post.owners.contains(
                OwnerEntry {
                    package_id: (reg.packages.len() as u64),
                    owner: OwnerId::User(req.user_id),
                },
            )
            &&& spec_rights(
                post.owners,
                post.teams,
                req2.memberships,
                post.packages[post.package_idx(req2.metadata.name)].id,
                req2.user_id,
            ) == Ok::<Capability, RightsError>(Capability::NoAccess)
            &&& !publish_accepts(post, req2, tarball2, Ok(m2), now2)
        }),
{
    let name = req.metadata.name;
    let pid = reg.packages.len() as u64;
    lemma_success_state_wf(reg, req, m, tarball, now);
    let post = publish_success_state(reg, req, m, tarball, now);
    let idx = reg.packages.len() as int;
    assert(post.packages[idx].name == name && post.packages[idx].id == pid);
    assert(post.has_package(req2.metadata.name)) by {
        assert(crate::strutil::canon_eq(post.packages[idx].name, req2.metadata.name));
    }
    assert(post.owners == reg.owners.push(
        OwnerEntry { package_id: pid, owner: OwnerId::User(req.user_id) },
    ));
    assert(post.owners.contains(OwnerEntry { package_id: pid, owner: OwnerId::User(req.user_id) }))
        by {
        assert(post.owners[reg.owners.len() as int] == OwnerEntry {
            package_id: pid,
            owner: OwnerId::User(req.user_id),
        });
    }
    let k = post.package_idx(req2.metadata.name);
    assert(0 <= k < post.packages.len() && crate::strutil::canon_eq(
        post.packages[k].name,
        req2.metadata.name,
    ));
    if k != idx {
        if k < idx {
            assert(!crate::strutil::canon_eq(post.packages[k].name, post.packages[idx].name));
        } else {
            assert(!crate::strutil::canon_eq(post.packages[idx].name, post.packages[k].name));
        }
        assert(false);
    }
    assert(post.packages[k].id == pid);
    assert(!crate::rights::owners_have_user(post.owners, pid, req2.user_id)) by {
        if crate::rights::owners_have_user(post.owners, pid, req2.user_id) {
            let e = OwnerEntry { package_id: pid, owner: OwnerId::User(req2.user_id) };
            let w = choose|w: int| 0 <= w < post.owners.len() && post.owners[w] == e;
            if w < reg.owners.len() as int {
                assert(post.owners[w] == reg.owners[w]);
                assert(reg.owners[w].package_id < reg.packages.len());
            }
        }
    }
    assert(!crate::rights::owns_via_team(post.owners, post.teams, req2.memberships, pid)) by {
        if crate::rights::owns_via_team(post.owners, post.teams, req2.memberships, pid) {
            let w = choose|w: int|
                0 <= w < post.owners.len() && (#[trigger] post.owners[w]).package_id == pid
                    && match post.owners[w].owner {
                    OwnerId::Team(t) => t < post.teams.len() && crate::rights::team_member_known(
                        req2.memberships,
                        post.teams[t as int].org_id,
                        post.teams[t as int].team_id,
                    ),
                    OwnerId::User(_) => false,
                };
            if w < reg.owners.len() as int {
                assert(post.owners[w] == reg.owners[w]);
                assert(reg.owners[w].package_id < reg.packages.len());
            }
        }
    }
    assert(!crate::rights::team_lookup_failed(post.owners, post.teams, req2.memberships, pid)) by {
        if crate::rights::team_lookup_failed(post.owners, post.teams, req2.memberships, pid) {
            let w = choose|w: int|
                0 <= w < post.owners.len() && (#[trigger] post.owners[w]).package_id == pid
                    && match post.owners[w].owner {
                    OwnerId::Team(t) => t < post.teams.len() && !crate::rights::lookup_answered(
                        req2.memberships,
                        post.teams[t as int].org_id,
                        post.teams[t as int].team_id,
                    ),
                    OwnerId::User(_) => false,
                };
            if w < reg.owners.len() as int {
                assert(post.owners[w] == reg.owners[w]);
                assert(reg.owners[w].package_id < reg.packages.len());
            }
        }
    }
    assert(!publish_accepts(post, req2, tarball2, Ok(m2), now2)) by {
        if publish_rejection(post, req2, tarball2, Ok(m2), now2) is None {
            assert(txn_rejection(post, req2, m2, now2) is None);
        }
    }
}

fn opt_as_str(o: &Option<String>) -> (r: Option<&str>)
    ensures
        match r {
            Some(s) => opt_view(*o) == Some(s@),
            None => opt_view(*o) is None,
        },
{
    match o {
        Some(s) => Some(s.as_str()),
        None => None,
    }
}

fn clone_features(v: &Vec<(String, Vec<String>)>) -> (r: Vec<(String, Vec<String>)>)
    ensures
        crate::registry::features_view(r@) == crate::registry::features_view(v@),
{
    let n = v.len();
    let mut r: Vec<(String, Vec<String>)> = Vec::new();
    let mut i: usize = 0;
    while i < n
        invariant
            n == v@.len(),
            i <= n,
            r@.len() == i,
            crate::registry::features_view(r@) =~= crate::registry::features_view(
                v@.take(i as int),
            ),
        decreases n - i,
    {
        let ghost pre = crate::registry::features_view(r@);
        let p = &v[i];
        let pair = (p.0.clone(), clone_string_vec(&p.1));
        let ghost pairv = (pair.0@, seq_views(pair.1@));
        proof {
            assert(pairv == (v@[i as int].0@, seq_views(v@[i as int].1@)));
        }
        r.push(pair);
        proof {
            assert(crate::registry::features_view(r@) =~= pre.push(pairv));
            assert(crate::registry::features_view(v@.take(i + 1)) =~= crate::registry::features_view(
                v@.take(i as int),
            ).push(pairv)) by {
                assert(v@.take(i + 1).drop_last() =~= v@.take(i as int));
                assert(v@.take(i + 1)[i as int] == v@[i as int]);
            }
        }
        i = i + 1;
    }
    assert(v@.take(n as int) =~= v@);
    r
}

fn in_taxonomy_exec(taxonomy: &Vec<String>, c: &String) -> (r: bool)
    ensures
        r == in_taxonomy(seq_views(taxonomy@), c@),
{
    let n = taxonomy.len();
    let mut i: usize = 0;
    while i < n
        invariant
            n == taxonomy@.len(),
            i <= n,
            forall|j: int| 0 <= j < i ==> (#[trigger] seq_views(taxonomy@)[j]) != c@,
        decreases n - i,
    {
        if taxonomy[i] == *c {
            assert(seq_views(taxonomy@)[i as int] == c@);
            return true;
        }
        assert(seq_views(taxonomy@)[i as int] != c@);
        i = i + 1;
    }
    false
}

/// Splits declared categories into those the taxonomy knows (stored) and the
/// unknown rest (warnings), keeping declaration order.
fn split_categories(taxonomy: &Vec<String>, categories: &Vec<String>) -> (r: (
    Vec<String>,
    Vec<String>,
))
    ensures
        seq_views(r.0@) == spec_known_categories(seq_views(taxonomy@), seq_views(categories@)),
        seq_views(r.1@) == spec_unknown_categories(seq_views(taxonomy@), seq_views(categories@)),
{
    let ghost tax = seq_views(taxonomy@);
    let ghost cs = seq_views(categories@);
    let n = categories.len();
    let mut known: Vec<String> = Vec::new();
    let mut unknown: Vec<String> = Vec::new();
    let mut i: usize = 0;
    while i < n
        invariant
            tax == seq_views(taxonomy@),
            cs == seq_views(categories@),
            n == categories@.len(),
            i <= n,
            seq_views(known@) =~= cs.take(i as int).filter(|c: Seq<char>| in_taxonomy(tax, c)),
            seq_views(unknown@) =~= cs.take(i as int).filter(|c: Seq<char>| !in_taxonomy(tax, c)),
        decreases n - i,
    {
        let ghost known_pre = seq_views(known@);
        let ghost unknown_pre = seq_views(unknown@);
        let c = &categories[i];
        assert(cs[i as int] == c@);
        proof {
            reveal(Seq::filter);
            assert(cs.take(i + 1).drop_last() =~= cs.take(i as int));
        }
        if in_taxonomy_exec(taxonomy, c) {
            known.push(c.clone());
            assert(seq_views(known@) =~= known_pre + seq![c@]);
        } else {
            unknown.push(c.clone());
            assert(seq_views(unknown@) =~= unknown_pre + seq![c@]);
        }
        i = i + 1;
    }
    assert(cs.take(n as int) =~= cs);
    (known, unknown)
}

impl Registry {
    /// Runs the whole publish pipeline on one request: the rate-limit debit,
    /// the size ceiling, the archive validator's verdict, the metadata rules
    /// and the atomic create-or-update transaction. On rejection nothing
    /// changes but the spent token; on success the registry advances to
    /// exactly the published state and the raw archive bytes remain for the
    /// caller to upload to the blob store.
    pub fn publish(
        &mut self,
        req: &PublishRequest,
        tarball: &Vec<u8>,
        archive: Result<ManifestInfo, ArchiveError>,
        now: u64,
    ) -> (r: Result<PublishOutput, PublishError>)
        requires
            old(self)@.wf(),
        ensures
            final(self)@.wf(),
            ({
                let orig = old(self)@;
                let archive_v: Result<ManifestInfoView, ArchiveErrorView> = match archive {
                    Ok(m) => Ok(m@),
                    Err(e) => Err(e@),
                };
                match r {
                    Ok(out) => {
                        &&& publish_rejection(orig, req@, tarball@, archive_v, now) is None
                        &&& archive_v matches Ok(m) && final(self)@ == publish_success_state(
                            orig,
                            req@,
                            m,
                            tarball@,
                            now,
                        ) && seq_views(out.invalid_categories@) == spec_unknown_categories(
                            orig.known_categories,
                            m.categories,
                        )
                        &&& out.krate_name@ == req@.metadata.name
                        &&& out.vers@ == req@.metadata.vers
                    },
                    Err(e) => {
                        &&& Some(e@) == publish_rejection(orig, req@, tarball@, archive_v, now)
                        &&& final(self)@ == publish_error_state(orig, req@, e@, now)
                    },
                }
            }),
    {
        let ghost orig = old(self)@;
        let ghost namev = req@.metadata.name;
        let ghost archive_v: Result<ManifestInfoView, ArchiveErrorView> = match archive {
            Ok(ref m) => Ok(m@),
            Err(ref e) => Err(e@),
        };
        let existing = self.find_package(req.metadata.name.as_str());
        proof {
            if let Some(i) = existing {
                let k = orig.package_idx(namev);
                assert(orig.has_package(namev));
                assert(0 <= k < orig.packages.len() && crate::strutil::canon_eq(
                    orig.packages[k].name,
                    namev,
                ));
                if k != i as int {
                    assert(crate::strutil::canon_eq(orig.packages[i as int].name, namev));
                    assert(crate::strutil::canon_eq(
                        orig.packages[i as int].name,
                        orig.packages[k].name,
                    ));
                    if k < i as int {
                        assert(!crate::strutil::canon_eq(
                            orig.packages[k].name,
                            orig.packages[i as int].name,
                        ));
                    } else {
                        assert(!crate::strutil::canon_eq(
                            orig.packages[i as int].name,
                            orig.packages[k].name,
                        ));
                    }
                    assert(false);
                }
            }
        }
        let action = match existing {
            Some(_) => LimitedAction::PublishUpdate,
            None => LimitedAction::PublishNew,
        };
        assert(action == spec_action(orig, namev));
        let bcfg = self.config.bucket_for(action);
        let rate = check_rate_limit(&mut self.buckets, bcfg, req.user_id, action, now);
        if let Err(retry) = rate {
            return Err(PublishError::RateLimited { retry_after: retry });
        }
        proof {
            assert(self@ =~~= publish_error_state(
                orig,
                req@,
                PublishErrorView::ReservedName,
                now,
            ));
        }
        let over = match existing {
            Some(i) => self.packages[i].max_upload_size,
            None => None,
        };
        assert(over == spec_upload_override(orig, namev));
        let maxs = maximums(over, self.config.max_upload_size, self.config.max_unpack_size);
        let content_length = tarball.len() as u64;
        if content_length > maxs.max_upload_size {
            return Err(PublishError::MaxUploadSize { max: maxs.max_upload_size });
        }
        let m = match archive {
            Ok(m) => m,
            Err(e) => {
                return Err(PublishError::Archive { err: e });
            },
        };
        let ghost mv = m@;
        let ManifestInfo {
            description,
            license,
            license_file,
            homepage,
            documentation,
            repository,
            keywords,
            categories,
            links,
            pkg_path_in_vcs,
        } = m;
        if let Err(e) = check_required_fields(&description, &license, &license_file) {
            return Err(PublishError::Validate { err: e });
        }
        let license_stored = match normalize_license(license, &license_file) {
            Ok(l) => l,
            Err(e) => {
                return Err(PublishError::Validate { err: e });
            },
        };
        if let Err(e) = validate_url(opt_as_str(&homepage), "homepage") {
            return Err(PublishError::Validate { err: e });
        }
        if let Err(e) = validate_url(opt_as_str(&documentation), "documentation") {
            return Err(PublishError::Validate { err: e });
        }
        if let Err(e) = validate_url(opt_as_str(&repository), "repository") {
            return Err(PublishError::Validate { err: e });
        }
        if let Err(e) = validate_keywords(&keywords) {
            return Err(PublishError::Validate { err: e });
        }
        if let Err(e) = validate_category_count(&categories) {
            return Err(PublishError::Validate { err: e });
        }
        assert(metadata_rejection(mv) is None);
        if self.is_reserved_name(req.metadata.name.as_str()) {
            return Err(PublishError::ReservedName);
        }
        assert(self@.reserved_names == orig.reserved_names);
        assert(!orig.name_reserved(namev));
        let (known_cats, unknown_cats) = split_categories(&self.known_categories, &categories);
        let repository_for_job = clone_opt_string(&repository);
        let vid = self.versions.len() as u64;
        let pid: u64;
        let ghost fresh = !orig.has_package(namev);
        match existing {
            Some(idx) => {
                pid = self.packages[idx].id;
                proof {
                    assert(forall|i: int|
                        0 <= i < self@.owners.len() ==> match (#[trigger] self@.owners[i]).owner {
                            OwnerId::Team(t) => t < self@.teams.len(),
                            OwnerId::User(_) => true,
                        });
                }
                match crate::rights::resolve_rights(
                    &self.owners,
                    &self.teams,
                    &req.memberships,
                    pid,
                    req.user_id,
                ) {
                    Err(_) => {
                        return Err(PublishError::MembershipLookupFailed);
                    },
                    Ok(cap) => {
                        if !cap.at_least(&Capability::Publish) {
                            return Err(PublishError::MissingRights);
                        }
                    },
                }
                if !(self.packages[idx].name == req.metadata.name) {
                    return Err(
                        PublishError::PreviouslyNamed { name: self.packages[idx].name.clone() },
                    );
                }
            },
            None => {
                pid = self.packages.len() as u64;
            },
        }
        if let Some(limit) = self.config.new_version_rate_limit {
            let window = if now >= SECONDS_PER_DAY {
                now - SECONDS_PER_DAY
            } else {
                0
            };
            assert(window == spec_window_start(now));
            let published = self.count_versions_published_since(pid, window);
            if published as u64 >= limit {
                assert(daily_cap_reached(orig, pid, now));
                return Err(PublishError::TooManyVersionsToday);
            }
        }
        if self.has_version(pid, req.metadata.vers.as_str()) {
            return Err(PublishError::DuplicateVersion { num: req.metadata.vers.clone() });
        }
        let edges: Vec<crate::registry::DependencyEdge>;
        match existing {
            Some(idx) => {
                let old_name = self.packages[idx].name.clone();
                let old_max = self.packages[idx].max_upload_size;
                proof {
                    assert forall|a: int, b: int|
                        0 <= a < b < self@.packages.len() implies (#[trigger] self@.packages[a]).name
                        != (#[trigger] self@.packages[b]).name by {
                        assert(!crate::strutil::canon_eq(
                            self@.packages[a].name,
                            self@.packages[b].name,
                        ));
                    }
                }
                edges = match add_dependencies(&self.packages, &req.metadata.deps, vid) {
                    Ok(es) => es,
                    Err(e) => {
                        return Err(PublishError::Dependency { err: e });
                    },
                };
                let updated = Package {
                    id: pid,
                    name: old_name,
                    description,
                    homepage,
                    documentation,
                    repository,
                    readme: clone_opt_string(&req.metadata.readme),
                    max_upload_size: old_max,
                    keywords,
                    categories: known_cats,
                };
                assert(updated@ =~~= spec_updated_package(
                    orig,
                    orig.packages[idx as int],
                    mv,
                    req@.metadata.readme,
                ));
                self.packages.set(idx, updated);
            },
            None => {
                let new_pkg = Package {
                    id: pid,
                    name: req.metadata.name.clone(),
                    description,
                    homepage,
                    documentation,
                    repository,
                    readme: clone_opt_string(&req.metadata.readme),
                    max_upload_size: None,
                    keywords,
                    categories: known_cats,
                };
                assert(new_pkg@ =~~= spec_new_package(orig, pid, namev, mv, req@.metadata.readme));
                self.packages.push(new_pkg);
                assert(self@.packages =~= spec_dep_table(orig, req@, mv));
                proof {
                    assert forall|a: int, b: int|
                        0 <= a < b < self@.packages.len() implies (#[trigger] self@.packages[a]).name
                        != (#[trigger] self@.packages[b]).name by {
                        if b == orig.packages.len() as int {
                            assert(self@.packages[a] == orig.packages[a]);
                            assert(!crate::strutil::canon_eq(orig.packages[a].name, namev));
                        } else {
                            assert(self@.packages[a] == orig.packages[a]);
                            assert(self@.packages[b] == orig.packages[b]);
                            assert(!crate::strutil::canon_eq(
                                orig.packages[a].name,
                                orig.packages[b].name,
                            ));
                        }
                    }
                }
                edges = match add_dependencies(&self.packages, &req.metadata.deps, vid) {
                    Ok(es) => es,
                    Err(e) => {
                        self.packages.pop();
                        assert(self@.packages =~= orig.packages);
                        proof {
                            assert(self@ =~~= publish_error_state(
                                orig,
                                req@,
                                PublishErrorView::Dependency { err: e@ },
                                now,
                            ));
                        }
                        return Err(PublishError::Dependency { err: e });
                    },
                };
                self.owners.push(OwnerEntry { package_id: pid, owner: OwnerId::User(req.user_id) });
            },
        }
        let checksum = crate::digest::sha256_hex(tarball.as_slice());
        let version = Version {
            id: vid,
            package_id: pid,
            num: req.metadata.vers.clone(),
            features: clone_features(&req.metadata.features),
            license: license_stored,
            size: content_length,
            published_by: req.user_id,
            checksum,
            links,
            created_at: now,
        };
        assert(version@ =~~= spec_new_version(vid, pid, req@, mv, tarball@, now));
        self.versions.push(version);
        let mut edges_to_insert = edges;
        self.dependencies.append(&mut edges_to_insert);
        self.actions.push(
            VersionOwnerAction {
                version_id: vid,
                user_id: req.user_id,
                api_token_id: req.api_token_id,
                action: VersionAction::Publish,
            },
        );
        if let Some(readme) = &req.metadata.readme {
            if !readme.as_str().is_empty() {
                let readme_file = match &req.metadata.readme_file {
                    Some(f) => f.clone(),
                    None => String::from_str("README.md"),
                };
                self.jobs.push(
                    Job {
                        kind: JobKind::RenderReadme {
                            version_id: vid,
                            readme: readme.clone(),
                            readme_file,
                            repository: repository_for_job,
                            pkg_path_in_vcs,
                        },
                        priority: PRIORITY_RENDER_README,
                        enqueued_at: now,
                    },
                );
            }
        }
        self.jobs.push(
            Job {
                kind: JobKind::SyncToIndex { name: req.metadata.name.clone() },
                priority: 0,
                enqueued_at: now,
            },
        );
        assert(self@.jobs =~~= orig.jobs + spec_enqueued_jobs(req@, mv, vid, namev, now));
        let vcount = self.versions.len();
        assert(orig.versions.len() < 0xffff_ffff_ffff_ffff) by {
            assert(orig.versions.len() + 1 == vcount as int);
        }
        let pcount = self.packages.len();
        assert(fresh ==> orig.packages.len() < 0xffff_ffff_ffff_ffff) by {
            if fresh {
                assert(orig.packages.len() + 1 == pcount as int);
            }
        }
        proof {
            assert(self@ =~~= publish_success_state(orig, req@, mv, tarball@, now));
            lemma_success_state_wf(orig, req@, mv, tarball@, now);
        }
        Ok(
            PublishOutput {
                krate_name: req.metadata.name.clone(),
                vers: req.metadata.vers.clone(),
                invalid_categories: unknown_cats,
            },
        )
    }
}

} // verus!
