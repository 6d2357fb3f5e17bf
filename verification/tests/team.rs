use registry_core::archive::ManifestInfo;
use registry_core::owners::TeamLookup;
use registry_core::publish::{PublishMetadata, PublishRequest};
use registry_core::ratelimit::BucketConfig;
use registry_core::registry::{Registry, RegistryConfig, Team};
use registry_core::rights::MembershipAnswer;

fn test_config() -> RegistryConfig {
    RegistryConfig {
        max_upload_size: 1024,
        max_unpack_size: 1024,
        new_version_rate_limit: None,
        publish_new_bucket: BucketConfig { refill_interval_secs: 1, burst: 1000 },
        publish_update_bucket: BucketConfig { refill_interval_secs: 1, burst: 1000 },
    }
}

fn manifest_ok() -> ManifestInfo {
    ManifestInfo {
        description: Some(String::from("description")),
        license: Some(String::from("MIT")),
        license_file: None,
        homepage: None,
        documentation: None,
        repository: None,
        keywords: Vec::new(),
        categories: Vec::new(),
        links: None,
        pkg_path_in_vcs: None,
    }
}

fn request(name: &str, vers: &str, user: u64) -> PublishRequest {
    PublishRequest {
        user_id: user,
        api_token_id: None,
        metadata: PublishMetadata {
            name: String::from(name),
            vers: String::from(vers),
            deps: Vec::new(),
            features: Vec::new(),
            readme: None,
            readme_file: None,
        },
        memberships: Vec::new(),
    }
}

/// Registers a package owned by the user and returns its id.
fn new_crate(r: &mut Registry, name: &str, user: u64) -> u64 {
    r.publish(&request(name, "1.0.0", user), &vec![0], Ok(manifest_ok()), 0)
        .unwrap();
    r.packages[r.packages.len() - 1].id
}

fn found(org_id: u64, team_id: u64, member: bool, org_owner: bool) -> TeamLookup {
    TeamLookup::Found {
        org_id,
        team_id,
        requester_is_member: member,
        requester_is_org_owner: org_owner,
    }
}

const USER_ALL_TEAMS: u64 = 1;
const USER_ONE_TEAM: u64 = 2;
const USER_ORG_OWNER: u64 = 3;

#[test]
fn not_github() {
    let mut r = Registry::new(test_config());
    let pid = new_crate(&mut r, "foo_not_github", USER_ALL_TEAMS);
    let err = r
        .add_team_owner(pid, USER_ALL_TEAMS, "dropbox:foo:foo", TeamLookup::NotFound, &vec![])
        .unwrap_err();
    assert_eq!(
        err.message(),
        "unknown organization handler, only 'github:org:team' is supported"
    );
}

#[test]
fn weird_name() {
    let mut r = Registry::new(test_config());
    let pid = new_crate(&mut r, "foo_weird_name", USER_ALL_TEAMS);
    let err = r
        .add_team_owner(pid, USER_ALL_TEAMS, "github:foo/../bar:wut", TeamLookup::NotFound, &vec![])
        .unwrap_err();
    assert_eq!(err.message(), "organization cannot contain special characters like /");
}

#[test]
fn one_colon() {
    let mut r = Registry::new(test_config());
    let pid = new_crate(&mut r, "foo_one_colon", USER_ALL_TEAMS);
    let err = r
        .add_team_owner(pid, USER_ALL_TEAMS, "github:foo", TeamLookup::NotFound, &vec![])
        .unwrap_err();
    assert_eq!(err.message(), "missing github team argument; format is github:org:team");
}

#[test]
fn nonexistent_team() {
    let mut r = Registry::new(test_config());
    let pid = new_crate(&mut r, "foo_nonexistent", USER_ALL_TEAMS);
    let err = r
        .add_team_owner(
            pid,
            USER_ALL_TEAMS,
            "github:test-org:this-does-not-exist",
            TeamLookup::NotFound,
            &vec![],
        )
        .unwrap_err();
    assert_eq!(
        err.message(),
        "could not find the github team test-org/this-does-not-exist"
    );
}

#[test]
fn add_renamed_team() {
    let mut r = Registry::new(test_config());
    let pid = new_crate(&mut r, "foo_renamed_team", USER_ALL_TEAMS);
    // A team with the same numeric identity but an older login.
    r.teams.push(Team {
        id: 0,
        org_id: 1000,
        team_id: 2001,
        login: String::from("github:test-org:old-core"),
    });
    r.add_team_owner(
        pid,
        USER_ALL_TEAMS,
        "github:test-org:core",
        found(1000, 2001, true, false),
        &vec![],
    )
    .unwrap();
    assert_eq!(r.teams.len(), 1);
    assert_eq!(r.teams[0].login, "github:test-org:core");
}

#[test]
fn add_team_mixed_case() {
    let mut r = Registry::new(test_config());
    let pid = new_crate(&mut r, "foo_mixed_case", USER_ALL_TEAMS);
    r.add_team_owner(
        pid,
        USER_ALL_TEAMS,
        "github:Test-Org:Core",
        found(1000, 2001, true, false),
        &vec![],
    )
    .unwrap();
    assert_eq!(r.owners.len(), 2);
    assert_eq!(r.teams[0].login, r.teams[0].login.to_lowercase());
    assert_eq!(r.teams[0].login, "github:test-org:core");
    // Removing it under the other casing resolves to the same entry.
    r.remove_team_owner(pid, USER_ALL_TEAMS, "github:test-org:core", &vec![])
        .unwrap();
    assert_eq!(r.owners.len(), 1);
}

#[test]
fn add_team_as_org_owner() {
    let mut r = Registry::new(test_config());
    let pid = new_crate(&mut r, "foo_org_owner", USER_ORG_OWNER);
    r.add_team_owner(
        pid,
        USER_ORG_OWNER,
        "github:test-org:core",
        found(1000, 2001, false, true),
        &vec![],
    )
    .unwrap();
    assert_eq!(r.owners.len(), 2);
    assert_eq!(r.teams[0].login, "github:test-org:core");
}

#[test]
fn add_team_as_non_member() {
    let mut r = Registry::new(test_config());
    let pid = new_crate(&mut r, "foo_team_non_member", USER_ONE_TEAM);
    let err = r
        .add_team_owner(
            pid,
            USER_ONE_TEAM,
            "github:test-org:core",
            found(1000, 2001, false, false),
            &vec![],
        )
        .unwrap_err();
    assert_eq!(
        err.message(),
        "only members of a team or organization owners can add it as an owner"
    );
}

#[test]
fn remove_team_as_named_owner() {
    let mut r = Registry::new(test_config());
    let pid = new_crate(&mut r, "foo_remove_team", USER_ALL_TEAMS);
    r.add_team_owner(
        pid,
        USER_ALL_TEAMS,
        "github:test-org:core",
        found(1000, 2001, true, false),
        &vec![],
    )
    .unwrap();

    // Removing the individual owner is not allowed, since team members don't
    // have permission to manage ownership.
    let err = r
        .remove_user_owner(pid, USER_ALL_TEAMS, USER_ALL_TEAMS, "user-all-teams", &vec![])
        .unwrap_err();
    assert_eq!(err.message(), "cannot remove all individual owners of a crate. Team member don't have permission to modify owners, so at least one individual owner is required.");

    r.remove_team_owner(pid, USER_ALL_TEAMS, "github:test-org:core", &vec![])
        .unwrap();

    let err = r
        .publish(
            &request("foo_remove_team", "2.0.0", USER_ONE_TEAM),
            &vec![0],
            Ok(manifest_ok()),
            5,
        )
        .unwrap_err();
    assert_eq!(err.message(), "this crate exists but you don't seem to be an owner. If you believe this is a mistake, perhaps you need to accept an invitation to be an owner before publishing.");
}

#[test]
fn remove_team_as_team_owner() {
    let mut r = Registry::new(test_config());
    let pid = new_crate(&mut r, "foo_remove_team_owner", USER_ALL_TEAMS);
    r.add_team_owner(
        pid,
        USER_ALL_TEAMS,
        "github:test-org:all",
        found(1000, 2002, true, false),
        &vec![],
    )
    .unwrap();

    // A member of the owning team, but not an individual owner.
    let one_team_memberships = vec![MembershipAnswer {
        org_id: 1000,
        team_id: 2002,
        answer: Some(true),
    }];
    let err = r
        .remove_team_owner(pid, USER_ONE_TEAM, "github:test-org:all", &one_team_memberships)
        .unwrap_err();
    assert_eq!(err.message(), "team members don't have permission to modify owners");

    // An owner of the organization, but neither member nor individual owner.
    let org_owner_memberships = vec![MembershipAnswer {
        org_id: 1000,
        team_id: 2002,
        answer: Some(false),
    }];
    let err = r
        .remove_team_owner(pid, USER_ORG_OWNER, "github:test-org:all", &org_owner_memberships)
        .unwrap_err();
    assert_eq!(err.message(), "only owners have permission to modify owners");
}

#[test]
fn publish_not_owned() {
    let mut r = Registry::new(test_config());
    let pid = new_crate(&mut r, "foo_not_owned", USER_ALL_TEAMS);
    r.add_team_owner(
        pid,
        USER_ALL_TEAMS,
        "github:test-org:core",
        found(1000, 2001, true, false),
        &vec![],
    )
    .unwrap();
    let mut req = request("foo_not_owned", "2.0.0", USER_ONE_TEAM);
    req.memberships = vec![MembershipAnswer { org_id: 1000, team_id: 2001, answer: Some(false) }];
    let err = r.publish(&req, &vec![0], Ok(manifest_ok()), 5).unwrap_err();
    assert_eq!(err.message(), "this crate exists but you don't seem to be an owner. If you believe this is a mistake, perhaps you need to accept an invitation to be an owner before publishing.");
}

#[test]
fn publish_org_owner_owned() {
    let mut r = Registry::new(test_config());
    let pid = new_crate(&mut r, "foo_not_owned", USER_ALL_TEAMS);
    r.add_team_owner(
        pid,
        USER_ALL_TEAMS,
        "github:test-org:core",
        found(1000, 2001, true, false),
        &vec![],
    )
    .unwrap();
    // Owning the organization does not make one a team member.
    let mut req = request("foo_not_owned", "2.0.0", USER_ORG_OWNER);
    req.memberships = vec![MembershipAnswer { org_id: 1000, team_id: 2001, answer: Some(false) }];
    let err = r.publish(&req, &vec![0], Ok(manifest_ok()), 5).unwrap_err();
    assert_eq!(err.message(), "this crate exists but you don't seem to be an owner. If you believe this is a mistake, perhaps you need to accept an invitation to be an owner before publishing.");
}

#[test]
fn publish_owned() {
    let mut r = Registry::new(test_config());
    let pid = new_crate(&mut r, "foo_team_owned", USER_ALL_TEAMS);
    r.add_team_owner(
        pid,
        USER_ALL_TEAMS,
        "github:test-org:all",
        found(1000, 2002, true, false),
        &vec![],
    )
    .unwrap();
    let mut req = request("foo_team_owned", "2.0.0", USER_ONE_TEAM);
    req.memberships = vec![MembershipAnswer { org_id: 1000, team_id: 2002, answer: Some(true) }];
    r.publish(&req, &vec![0], Ok(manifest_ok()), 5).unwrap();
}

#[test]
fn add_owners_as_org_owner() {
    let mut r = Registry::new(test_config());
    let pid = new_crate(&mut r, "foo_add_owner", USER_ALL_TEAMS);
    r.add_team_owner(
        pid,
        USER_ALL_TEAMS,
        "github:test-org:all",
        found(1000, 2002, true, false),
        &vec![],
    )
    .unwrap();
    let memberships = vec![MembershipAnswer { org_id: 1000, team_id: 2002, answer: Some(false) }];
    let err = r
        .add_user_owner(pid, USER_ORG_OWNER, 99, &memberships)
        .unwrap_err();
    assert_eq!(err.message(), "only owners have permission to modify owners");
}

#[test]
fn add_owners_as_team_owner() {
    let mut r = Registry::new(test_config());
    let pid = new_crate(&mut r, "foo_add_owner", USER_ALL_TEAMS);
    r.add_team_owner(
        pid,
        USER_ALL_TEAMS,
        "github:test-org:all",
        found(1000, 2002, true, false),
        &vec![],
    )
    .unwrap();
    let memberships = vec![MembershipAnswer { org_id: 1000, team_id: 2002, answer: Some(true) }];
    let err = r
        .add_user_owner(pid, USER_ONE_TEAM, 99, &memberships)
        .unwrap_err();
    assert_eq!(err.message(), "team members don't have permission to modify owners");
}

#[test]
fn membership_lookup_failure_is_distinct() {
    let mut r = Registry::new(test_config());
    let pid = new_crate(&mut r, "foo_lookup", USER_ALL_TEAMS);
    r.add_team_owner(
        pid,
        USER_ALL_TEAMS,
        "github:test-org:core",
        found(1000, 2001, true, false),
        &vec![],
    )
    .unwrap();
    // No answer at all for the owning team: the lookup failed.
    let err = r
        .publish(&request("foo_lookup", "2.0.0", USER_ONE_TEAM), &vec![0], Ok(manifest_ok()), 5)
        .unwrap_err();
    assert_eq!(err.message(), "could not verify team membership");
}
