//! Ownership management.
//!
//! Owners are individual actors or externally verified teams. Modifying the
//! owner set takes individual-owner rights: mere team membership is not
//! enough. Team logins have the shape `provider:org:team`; their casing is
//! display-only, the stored login is case-folded, and a team's identity is
//! its numeric org and team pair. A package must keep at least one
//! individual owner while team owners remain, because teams cannot
//! themselves authorize further ownership changes.

use vstd::prelude::*;

use crate::registry::{OwnerEntry, OwnerId, Registry, RegistryView, Team, TeamView};
use crate::rights::{spec_rights, Capability, MembershipAnswer};
use crate::strutil::{lower_seq, lower_str};
use crate::validate::ascii_alnum;

verus! {

#[derive(Debug)]
pub enum OwnerError {
    /// The login names a provider other than the supported one.
    UnknownHandler,
    /// The organization part holds characters outside its grammar.
    SpecialCharsOrg,
    /// The login has no team part.
    MissingTeamArg,
    /// The external collaborator knows no such team.
    TeamNotFound { org: String, team: String },
    /// The requester is neither a member of the team nor an owner of its
    /// organization.
    NotTeamMember,
    /// The requester only owns the package through a team.
    TeamMemberCannotModify,
    /// The requester does not own the package at all.
    NotAnOwner,
    /// An owning team's membership lookup failed.
    MembershipCheckFailed,
    /// The removal would leave only team owners behind.
    LastIndividualOwner,
    /// No owner matches the given login.
    OwnerNotFound { login: String },
}

#[verifier::ext_equal]
pub ghost enum OwnerErrorView {
    UnknownHandler,
    SpecialCharsOrg,
    MissingTeamArg,
    TeamNotFound { org: Seq<char>, team: Seq<char> },
    NotTeamMember,
    TeamMemberCannotModify,
    NotAnOwner,
    MembershipCheckFailed,
    LastIndividualOwner,
    OwnerNotFound { login: Seq<char> },
}

impl View for OwnerError {
    type V = OwnerErrorView;

    open spec fn view(&self) -> OwnerErrorView {
        match self {
            OwnerError::UnknownHandler => OwnerErrorView::UnknownHandler,
            OwnerError::SpecialCharsOrg => OwnerErrorView::SpecialCharsOrg,
            OwnerError::MissingTeamArg => OwnerErrorView::MissingTeamArg,
            OwnerError::TeamNotFound { org, team } => OwnerErrorView::TeamNotFound {
                org: org@,
                team: team@,
            },
            OwnerError::NotTeamMember => OwnerErrorView::NotTeamMember,
            OwnerError::TeamMemberCannotModify => OwnerErrorView::TeamMemberCannotModify,
            OwnerError::NotAnOwner => OwnerErrorView::NotAnOwner,
            OwnerError::MembershipCheckFailed => OwnerErrorView::MembershipCheckFailed,
            OwnerError::LastIndividualOwner => OwnerErrorView::LastIndividualOwner,
            OwnerError::OwnerNotFound { login } => OwnerErrorView::OwnerNotFound { login: login@ },
        }
    }
}

impl OwnerErrorView {
    /// The stable human-readable message for the rejection.
    pub open spec fn spec_message(self) -> Seq<char> {
        match self {
            OwnerErrorView::UnknownHandler => "unknown organization handler, only 'github:org:team' is supported"@,
            OwnerErrorView::SpecialCharsOrg => "organization cannot contain special characters like /"@,
            OwnerErrorView::MissingTeamArg => "missing github team argument; format is github:org:team"@,
            OwnerErrorView::TeamNotFound { org, team } => "could not find the github team "@ + org
                + "/"@ + team,
            OwnerErrorView::NotTeamMember => "only members of a team or organization owners can add it as an owner"@,
            OwnerErrorView::TeamMemberCannotModify => "team members don't have permission to modify owners"@,
            OwnerErrorView::NotAnOwner => "only owners have permission to modify owners"@,
            OwnerErrorView::MembershipCheckFailed => "could not verify team membership"@,
            OwnerErrorView::LastIndividualOwner => "cannot remove all individual owners of a crate. Team member don't have permission to modify owners, so at least one individual owner is required."@,
            OwnerErrorView::OwnerNotFound { login } => "could not find owner with login `"@ + login
                + "`"@,
        }
    }
}

impl OwnerError {
    pub fn message(&self) -> (r: String)
        ensures
            r@ == self@.spec_message(),
    {
        match self {
            OwnerError::UnknownHandler => String::from_str(
                "unknown organization handler, only 'github:org:team' is supported",
            ),
            OwnerError::SpecialCharsOrg => String::from_str(
                "organization cannot contain special characters like /",
            ),
            OwnerError::MissingTeamArg => String::from_str(
                "missing github team argument; format is github:org:team",
            ),
            OwnerError::TeamNotFound { org, team } => {
                let mut s = String::from_str("could not find the github team ");
                s.append(org.as_str());
                s.append("/");
                s.append(team.as_str());
                s
            },
            OwnerError::NotTeamMember => String::from_str(
                "only members of a team or organization owners can add it as an owner",
            ),
            OwnerError::TeamMemberCannotModify => String::from_str(
                "team members don't have permission to modify owners",
            ),
            OwnerError::NotAnOwner => String::from_str(
                "only owners have permission to modify owners",
            ),
            OwnerError::MembershipCheckFailed => String::from_str(
                "could not verify team membership",
            ),
            OwnerError::LastIndividualOwner => String::from_str(
                "cannot remove all individual owners of a crate. Team member don't have permission to modify owners, so at least one individual owner is required.",
            ),
            OwnerError::OwnerNotFound { login } => {
                let mut s = String::from_str("could not find owner with login `");
                s.append(login.as_str());
                s.append("`");
                s
            },
        }
    }
}

/// The organization-name grammar: ASCII alphanumerics, `-` and `_`.
pub open spec fn org_chars_ok(s: Seq<char>) -> bool {
    forall|i: int|
        0 <= i < s.len() ==> ascii_alnum(#[trigger] s[i]) || s[i] == '-' || s[i] == '_'
}

/// Parses a team login of the shape `github:org:team`: the org is what
/// stands between the first two colons, the team is everything after the
/// second.
pub fn parse_team_login(login: &str) -> (r: Result<(String, String), OwnerError>)
    ensures
        match r {
            Ok((org, team)) => {
                &&& login@ == "github:"@ + org@ + ":"@ + team@
                &&& forall|i: int| 0 <= i < org@.len() ==> (#[trigger] org@[i]) != ':'
                &&& org_chars_ok(org@)
            },
            Err(e) => match e {
                OwnerError::UnknownHandler => !crate::strutil::has_prefix(login@, "github:"@),
                OwnerError::MissingTeamArg => crate::strutil::has_prefix(login@, "github:"@)
                    && forall|i: int| 7 <= i < login@.len() ==> (#[trigger] login@[i]) != ':',
                OwnerError::SpecialCharsOrg => crate::strutil::has_prefix(login@, "github:"@)
                    && exists|c: int|
                    {
                        &&& 7 <= c < login@.len()
                        &&& #[trigger] login@[c] == ':'
                        &&& (forall|i: int| 7 <= i < c ==> (#[trigger] login@[i]) != ':')
                        &&& !org_chars_ok(login@.subrange(7, c))
                    },
                _ => false,
            },
        },
{
    if !crate::strutil::str_has_prefix(login, "github:") {
        return Err(OwnerError::UnknownHandler);
    }
    proof {
        reveal_strlit("github:");
    }
    let n = login.unicode_len();
    assert(n >= 7);
    let mut c: usize = 7;
    let mut found_colon = false;
    while !found_colon && c < n
        invariant
            n == login@.len(),
            7 <= c <= n,
            found_colon ==> c < n && login@[c as int] == ':',
            forall|i: int| 7 <= i < c ==> (#[trigger] login@[i]) != ':',
        decreases n - c, if found_colon { 0int } else { 1int },
    {
        if login.get_char(c) == ':' {
            found_colon = true;
        } else {
            c = c + 1;
        }
    }
    if !found_colon {
        return Err(OwnerError::MissingTeamArg);
    }
    assert(login@[c as int] == ':');
    let org = login.substring_char(7, c);
    assert(org@ == login@.subrange(7, c as int));
    let mut i: usize = 0;
    let orglen = org.unicode_len();
    while i < orglen
        invariant
            n == login@.len(),
            7 <= c < n,
            login@[c as int] == ':',
            forall|j: int| 7 <= j < c ==> (#[trigger] login@[j]) != ':',
            crate::strutil::has_prefix(login@, "github:"@),
            orglen == org@.len(),
            i <= orglen,
            org@ == login@.subrange(7, c as int),
            forall|j: int|
                0 <= j < i ==> ascii_alnum(#[trigger] org@[j]) || org@[j] == '-' || org@[j] == '_',
        decreases orglen - i,
    {
        let ch = org.get_char(i);
        let u = ch as u32;
        if !((48 <= u && u <= 57) || (65 <= u && u <= 90) || (97 <= u && u <= 122) || ch == '-'
            || ch == '_') {
            assert(!org_chars_ok(org@));
            assert(7 <= c < login@.len() && login@[c as int] == ':' && (forall|j: int|
                7 <= j < c ==> (#[trigger] login@[j]) != ':') && !org_chars_ok(
                login@.subrange(7, c as int),
            ));
            return Err(OwnerError::SpecialCharsOrg);
        }
        i = i + 1;
    }
    assert(org_chars_ok(org@));
    let team = login.substring_char(c + 1, n);
    assert(team@ == login@.subrange(c + 1, n as int));
    let org_s = String::from_str(org);
    let team_s = String::from_str(team);
    proof {
        reveal_strlit("github:");
        reveal_strlit(":");
        assert(login@.take(7) == "github:"@);
        assert(login@ =~= "github:"@ + org_s@ + ":"@ + team_s@);
    }
    assert(forall|i: int| 0 <= i < org_s@.len() ==> (#[trigger] org_s@[i]) != ':');
    Ok((org_s, team_s))
}

/// What the external identity collaborator answered about the team a login
/// names, resolved by org and team name.
pub enum TeamLookup {
    /// No such team.
    NotFound,
    /// The team's stable numeric identity, and whether the requester is a
    /// member of it or an owner of its organization.
    Found { org_id: u64, team_id: u64, requester_is_member: bool, requester_is_org_owner: bool },
}

/// Whether some team row carries the numeric identity.
pub open spec fn has_team_key(ts: Seq<TeamView>, org_id: u64, team_id: u64) -> bool {
    exists|i: int|
        0 <= i < ts.len() && (#[trigger] ts[i]).org_id == org_id && ts[i].team_id == team_id
}

/// The position of the team row with the numeric identity.
pub open spec fn team_key_idx(ts: Seq<TeamView>, org_id: u64, team_id: u64) -> int {
    choose|i: int|
        0 <= i < ts.len() && (#[trigger] ts[i]).org_id == org_id && ts[i].team_id == team_id
}

/// The team table after registering a team: a renamed team keeps its row
/// (the numeric pair is the identity, the stored login is refreshed), a new
/// team gets a fresh row; the stored login is always the case-folded one.
pub open spec fn spec_teams_after_upsert(
    ts: Seq<TeamView>,
    org_id: u64,
    team_id: u64,
    login_folded: Seq<char>,
) -> Seq<TeamView> {
    if has_team_key(ts, org_id, team_id) {
        let i = team_key_idx(ts, org_id, team_id);
        ts.update(i, TeamView { id: ts[i].id, org_id, team_id, login: login_folded })
    } else {
        ts.push(TeamView { id: ts.len() as u64, org_id, team_id, login: login_folded })
    }
}

/// The internal id under which the team is (or becomes) registered.
pub open spec fn spec_team_internal_id(ts: Seq<TeamView>, org_id: u64, team_id: u64) -> u64 {
    if has_team_key(ts, org_id, team_id) {
        ts[team_key_idx(ts, org_id, team_id)].id
    } else {
        ts.len() as u64
    }
}

/// Whether some team row stores the case-folded form of the login.
pub open spec fn has_team_with_login(ts: Seq<TeamView>, login: Seq<char>) -> bool {
    exists|i: int| 0 <= i < ts.len() && (#[trigger] ts[i]).login == lower_seq(login)
}

/// The position of the team row matching the login case-insensitively.
pub open spec fn team_login_idx(ts: Seq<TeamView>, login: Seq<char>) -> int {
    choose|i: int| 0 <= i < ts.len() && (#[trigger] ts[i]).login == lower_seq(login)
}

/// The rejection, if any, for the right to modify a package's owners:
/// it takes a direct individual owner; team membership grants publishing,
/// not owner management.
pub open spec fn modify_owners_rejection(
    reg: RegistryView,
    package_id: u64,
    requester: u64,
    ms: Seq<MembershipAnswer>,
) -> Option<OwnerErrorView> {
    if crate::rights::owners_have_user(reg.owners, package_id, requester) {
        None
    } else {
        match spec_rights(reg.owners, reg.teams, ms, package_id, requester) {
            Ok(Capability::Publish) => Some(OwnerErrorView::TeamMemberCannotModify),
            Ok(_) => Some(OwnerErrorView::NotAnOwner),
            Err(_) => Some(OwnerErrorView::MembershipCheckFailed),
        }
    }
}

/// Whether the target is the only individual owner of the package.
pub open spec fn only_user_owner(os: Seq<OwnerEntry>, package_id: u64, target: u64) -> bool {
    forall|i: int|
        0 <= i < os.len() && (#[trigger] os[i]).package_id == package_id ==> match os[i].owner {
            OwnerId::User(u) => u == target,
            OwnerId::Team(_) => true,
        }
}

/// Whether some team owns the package.
pub open spec fn has_team_owner(os: Seq<OwnerEntry>, package_id: u64) -> bool {
    exists|i: int|
        0 <= i < os.len() && (#[trigger] os[i]).package_id == package_id && os[i].owner is Team
}

/// The position of an ownership entry.
pub open spec fn owner_entry_idx(os: Seq<OwnerEntry>, e: OwnerEntry) -> int {
    choose|i: int| 0 <= i < os.len() && os[i] == e
}

/// The rejection, if any, for removing an individual owner: it takes
/// individual-owner rights, the target must own the package, and the last
/// individual owner cannot leave while team owners remain.
pub open spec fn remove_user_rejection(
    reg: RegistryView,
    package_id: u64,
    requester: u64,
    target: u64,
    target_login: Seq<char>,
    ms: Seq<MembershipAnswer>,
) -> Option<OwnerErrorView> {
    match modify_owners_rejection(reg, package_id, requester, ms) {
        Some(e) => Some(e),
        None => if !crate::rights::owners_have_user(reg.owners, package_id, target) {
            Some(OwnerErrorView::OwnerNotFound { login: target_login })
        } else if only_user_owner(reg.owners, package_id, target) && has_team_owner(
            reg.owners,
            package_id,
        ) {
            Some(OwnerErrorView::LastIndividualOwner)
        } else {
            None
        },
    }
}

/// The rejection, if any, for removing a team owner: it takes
/// individual-owner rights, and a team matching the login case-insensitively
/// must own the package.
pub open spec fn remove_team_rejection(
    reg: RegistryView,
    package_id: u64,
    requester: u64,
    login: Seq<char>,
    ms: Seq<MembershipAnswer>,
) -> Option<OwnerErrorView> {
    match modify_owners_rejection(reg, package_id, requester, ms) {
        Some(e) => Some(e),
        None => if !(has_team_with_login(reg.teams, login) && reg.team_owns(
            package_id,
            reg.teams[team_login_idx(reg.teams, login)].id,
        )) {
            Some(OwnerErrorView::OwnerNotFound { login })
        } else {
            None
        },
    }
}

impl Registry {
    /// Checks the right to modify the package's owners.
    fn modify_owners_check(
        &self,
        package_id: u64,
        requester: u64,
        memberships: &Vec<MembershipAnswer>,
    ) -> (r: Result<(), OwnerError>)
        requires
            self@.wf(),
        ensures
            match r {
                Ok(()) => modify_owners_rejection(self@, package_id, requester, memberships@)
                    is None,
                Err(e) => Some(e@) == modify_owners_rejection(
                    self@,
                    package_id,
                    requester,
                    memberships@,
                ),
            },
    {
        if self.user_owns(package_id, requester) {
            return Ok(());
        }
        match crate::rights::resolve_rights(
            &self.owners,
            &self.teams,
            memberships,
            package_id,
            requester,
        ) {
            Ok(Capability::Publish) => Err(OwnerError::TeamMemberCannotModify),
            Ok(_) => Err(OwnerError::NotAnOwner),
            Err(_) => Err(OwnerError::MembershipCheckFailed),
        }
    }

    /// Grants an individual actor ownership of the package; the requester
    /// must be a direct individual owner. Granting it twice changes nothing.
    pub fn add_user_owner(
        &mut self,
        package_id: u64,
        requester: u64,
        target: u64,
        memberships: &Vec<MembershipAnswer>,
    ) -> (r: Result<(), OwnerError>)
        requires
            old(self)@.wf(),
            package_id < old(self)@.packages.len(),
        ensures
            final(self)@.wf(),
            match r {
                Ok(()) => {
                    &&& modify_owners_rejection(old(self)@, package_id, requester, memberships@)
                        is None
                    &&& final(self)@ == (RegistryView {
                        owners: if crate::rights::owners_have_user(
                            old(self)@.owners,
                            package_id,
                            target,
                        ) {
                            old(self)@.owners
                        } else {
                            old(self)@.owners.push(
                                OwnerEntry { package_id, owner: OwnerId::User(target) },
                            )
                        },
                        ..old(self)@
                    })
                },
                Err(e) => Some(e@) == modify_owners_rejection(
                    old(self)@,
                    package_id,
                    requester,
                    memberships@,
                ) && final(self)@ == old(self)@,
            },
    {
        if let Err(e) = self.modify_owners_check(package_id, requester, memberships) {
            return Err(e);
        }
        let entry = OwnerEntry { package_id, owner: OwnerId::User(target) };
        if !self.user_owns(package_id, target) {
            self.owners.push(entry);
            proof {
                assert forall|i: int, j: int|
                    0 <= i < j < self@.owners.len() implies self@.owners[i] != self@.owners[j] by {
                    if j == old(self)@.owners.len() as int {
                        assert(self@.owners[i] == old(self)@.owners[i]);
                        assert(!old(self)@.owners.contains(entry));
                        assert(old(self)@.owners[i] != entry);
                    } else {
                        assert(self@.owners[i] == old(self)@.owners[i]);
                        assert(self@.owners[j] == old(self)@.owners[j]);
                    }
                }
                assert(self@ =~~= (RegistryView {
                    owners: old(self)@.owners.push(entry),
                    ..old(self)@
                }));
            }
        } else {
            proof {
                assert(self@ =~~= (RegistryView { owners: old(self)@.owners, ..old(self)@ }));
            }
        }
        Ok(())
    }

    /// Registers the team under its numeric identity (refreshing the stored,
    /// case-folded login on a rename) and grants it ownership of the
    /// package. The requester must be a direct individual owner of the
    /// package and a member of the team or an owner of its organization.
    pub fn add_team_owner(
        &mut self,
        package_id: u64,
        requester: u64,
        login: &str,
        lookup: TeamLookup,
        memberships: &Vec<MembershipAnswer>,
    ) -> (r: Result<(), OwnerError>)
        requires
            old(self)@.wf(),
            package_id < old(self)@.packages.len(),
        ensures
            final(self)@.wf(),
            match r {
                Ok(()) => {
                    &&& modify_owners_rejection(old(self)@, package_id, requester, memberships@)
                        is None
                    &&& lookup matches TeamLookup::Found {
                        org_id,
                        team_id,
                        requester_is_member,
                        requester_is_org_owner,
                    } && (requester_is_member || requester_is_org_owner) && ({
                        let tid = spec_team_internal_id(old(self)@.teams, org_id, team_id);
                        let entry = OwnerEntry { package_id, owner: OwnerId::Team(tid) };
                        final(self)@ == (RegistryView {
                            teams: spec_teams_after_upsert(
                                old(self)@.teams,
                                org_id,
                                team_id,
                                lower_seq(login@),
                            ),
                            owners: if old(self)@.owners.contains(entry) {
                                old(self)@.owners
                            } else {
                                old(self)@.owners.push(entry)
                            },
                            ..old(self)@
                        })
                    })
                },
                Err(e) => final(self)@ == old(self)@ && match modify_owners_rejection(
                    old(self)@,
                    package_id,
                    requester,
                    memberships@,
                ) {
                    Some(m) => e@ == m,
                    None => match e {
                        OwnerError::TeamNotFound { org, team } => lookup is NotFound,
                        OwnerError::NotTeamMember => (lookup matches TeamLookup::Found {
                            requester_is_member,
                            requester_is_org_owner,
                            ..
                        } && !requester_is_member && !requester_is_org_owner),
                        OwnerError::UnknownHandler
                        | OwnerError::SpecialCharsOrg
                        | OwnerError::MissingTeamArg => true,
                        _ => false,
                    },
                },
            },
    {
        if let Err(e) = self.modify_owners_check(package_id, requester, memberships) {
            return Err(e);
        }
        let (org, team) = match parse_team_login(login) {
            Ok(p) => p,
            Err(e) => {
                return Err(e);
            },
        };
        let (org_id, team_id, is_member, is_org_owner) = match lookup {
            TeamLookup::NotFound => {
                return Err(OwnerError::TeamNotFound { org, team });
            },
            TeamLookup::Found { org_id, team_id, requester_is_member, requester_is_org_owner } => (
                org_id,
                team_id,
                requester_is_member,
                requester_is_org_owner,
            ),
        };
        if !(is_member || is_org_owner) {
            return Err(OwnerError::NotTeamMember);
        }
        let folded = lower_str(login);
        let ghost ts = self@.teams;
        let n = self.teams.len();
        let mut found: Option<usize> = None;
        let mut i: usize = 0;
        while i < n
            invariant
                ts == self@.teams,
                n == self@.teams.len(),
                i <= n,
                match found {
                    Some(t) => t < n && ts[t as int].org_id == org_id && ts[t as int].team_id
                        == team_id,
                    None => forall|j: int|
                        0 <= j < i ==> !((#[trigger] ts[j]).org_id == org_id && ts[j].team_id
                            == team_id),
                },
            decreases n - i,
        {
            if found.is_none() && self.teams[i].org_id == org_id && self.teams[i].team_id == team_id {
                found = Some(i);
            }
            i = i + 1;
        }
        let tid: u64;
        match found {
            Some(t) => {
                proof {
                    assert(has_team_key(ts, org_id, team_id)) by {
                        assert(ts[t as int].org_id == org_id && ts[t as int].team_id == team_id);
                    }
                    let k = team_key_idx(ts, org_id, team_id);
                    assert(0 <= k < ts.len() && ts[k].org_id == org_id && ts[k].team_id == team_id);
                    if k < t as int {
                        assert(!(ts[k].org_id == ts[t as int].org_id && ts[k].team_id
                            == ts[t as int].team_id));
                    } else if k > t as int {
                        assert(!(ts[t as int].org_id == ts[k].org_id && ts[t as int].team_id
                            == ts[k].team_id));
                    }
                    assert(k == t as int);
                }
                tid = self.teams[t].id;
                let updated = Team { id: tid, org_id, team_id, login: folded };
                self.teams.set(t, updated);
                assert(self@.teams =~= spec_teams_after_upsert(
                    ts,
                    org_id,
                    team_id,
                    lower_seq(login@),
                ));
            },
            None => {
                assert(!has_team_key(ts, org_id, team_id));
                tid = n as u64;
                let fresh = Team { id: tid, org_id, team_id, login: folded };
                self.teams.push(fresh);
                assert(self@.teams =~= spec_teams_after_upsert(
                    ts,
                    org_id,
                    team_id,
                    lower_seq(login@),
                ));
            },
        }
        assert(tid == spec_team_internal_id(ts, org_id, team_id));
        proof {
            crate::strutil::lemma_lower_seq_idempotent(login@);
            assert forall|p: int, q: int|
                0 <= p < q < self@.teams.len() implies !(
            (#[trigger] self@.teams[p]).org_id == (#[trigger] self@.teams[q]).org_id
                && self@.teams[p].team_id == self@.teams[q].team_id) by {
                if has_team_key(ts, org_id, team_id) {
                    assert(self@.teams[p].org_id == ts[p].org_id && self@.teams[p].team_id
                        == ts[p].team_id);
                    assert(self@.teams[q].org_id == ts[q].org_id && self@.teams[q].team_id
                        == ts[q].team_id);
                } else {
                    if q == ts.len() as int {
                        assert(self@.teams[p] == ts[p]);
                        assert(!(ts[p].org_id == org_id && ts[p].team_id == team_id));
                    } else {
                        assert(self@.teams[p] == ts[p] && self@.teams[q] == ts[q]);
                    }
                }
            }
        }
        let entry = OwnerEntry { package_id, owner: OwnerId::Team(tid) };
        let ghost os = self@.owners;
        let mut have = false;
        let m = self.owners.len();
        let mut j: usize = 0;
        while j < m
            invariant
                os == self@.owners,
                m == self@.owners.len(),
                j <= m,
                have == os.take(j as int).contains(entry),
            decreases m - j,
        {
            let e = self.owners[j];
            proof {
                assert(os.take(j + 1).drop_last() == os.take(j as int));
                assert(os.take(j + 1)[j as int] == os[j as int]);
                if os.take(j as int).contains(entry) {
                    let w = choose|w: int| 0 <= w < j && #[trigger] os.take(j as int)[w] == entry;
                    assert(os.take(j + 1)[w] == entry);
                }
            }
            if e == entry {
                have = true;
                assert(os.take(j + 1)[j as int] == entry);
            } else {
                proof {
                    if os.take(j + 1).contains(entry) {
                        let w = choose|w: int| 0 <= w <= j && #[trigger] os.take(j + 1)[w] == entry;
                        if w < j as int {
                            assert(os.take(j as int)[w] == entry);
                        }
                    }
                }
            }
            j = j + 1;
        }
        assert(os.take(m as int) == os);
        if !have {
            self.owners.push(entry);
            proof {
                assert forall|p: int, q: int|
                    0 <= p < q < self@.owners.len() implies self@.owners[p] != self@.owners[q] by {
                    if q == os.len() as int {
                        assert(self@.owners[p] == os[p]);
                        assert(!os.contains(entry));
                        assert(os[p] != entry);
                    } else {
                        assert(self@.owners[p] == os[p] && self@.owners[q] == os[q]);
                    }
                }
            }
        }
        proof {
            let tsv = self@.teams;
            assert(tid < tsv.len());
            assert forall|i2: int|
                0 <= i2 < self@.owners.len() implies (#[trigger] self@.owners[i2]).package_id
                < self@.packages.len() && match self@.owners[i2].owner {
                OwnerId::User(_) => true,
                OwnerId::Team(t2) => t2 < self@.teams.len(),
            } by {
                if i2 < os.len() as int {
                    assert(self@.owners[i2] == os[i2]);
                    assert(ts.len() <= self@.teams.len());
                }
            }
            if have {
                assert(self@ =~~= (RegistryView {
                    teams: spec_teams_after_upsert(ts, org_id, team_id, lower_seq(login@)),
                    owners: os,
                    ..old(self)@
                }));
            } else {
                assert(self@ =~~= (RegistryView {
                    teams: spec_teams_after_upsert(ts, org_id, team_id, lower_seq(login@)),
                    owners: os.push(entry),
                    ..old(self)@
                }));
            }
        }
        Ok(())
    }

    /// Removes an individual owner. The requester must be a direct
    /// individual owner, and the last individual owner cannot leave while
    /// team owners remain.
    pub fn remove_user_owner(
        &mut self,
        package_id: u64,
        requester: u64,
        target: u64,
        target_login: &str,
        memberships: &Vec<MembershipAnswer>,
    ) -> (r: Result<(), OwnerError>)
        requires
            old(self)@.wf(),
        ensures
            final(self)@.wf(),
            match r {
                Ok(()) => {
                    &&& remove_user_rejection(
                        old(self)@,
                        package_id,
                        requester,
                        target,
                        target_login@,
                        memberships@,
                    ) is None
                    &&& final(self)@ == (RegistryView {
                        owners: old(self)@.owners.remove(
                            owner_entry_idx(
                                old(self)@.owners,
                                OwnerEntry { package_id, owner: OwnerId::User(target) },
                            ),
                        ),
                        ..old(self)@
                    })
                },
                Err(e) => Some(e@) == remove_user_rejection(
                    old(self)@,
                    package_id,
                    requester,
                    target,
                    target_login@,
                    memberships@,
                ) && final(self)@ == old(self)@,
            },
    {
        if let Err(e) = self.modify_owners_check(package_id, requester, memberships) {
            return Err(e);
        }
        let entry = OwnerEntry { package_id, owner: OwnerId::User(target) };
        if !self.user_owns(package_id, target) {
            return Err(OwnerError::OwnerNotFound { login: String::from_str(target_login) });
        }
        let only_user = self.only_user_owner_exec(package_id, target);
        let team_owner = self.has_team_owner_exec(package_id);
        if only_user && team_owner {
            return Err(OwnerError::LastIndividualOwner);
        }
        self.remove_owner_entry(entry);
        Ok(())
    }

    /// Removes a team owner, resolved from the login case-insensitively. The
    /// requester must be a direct individual owner: team membership does not
    /// grant owner management.
    pub fn remove_team_owner(
        &mut self,
        package_id: u64,
        requester: u64,
        login: &str,
        memberships: &Vec<MembershipAnswer>,
    ) -> (r: Result<(), OwnerError>)
        requires
            old(self)@.wf(),
        ensures
            final(self)@.wf(),
            match r {
                Ok(()) => {
                    &&& modify_owners_rejection(old(self)@, package_id, requester, memberships@)
                        is None
                    &&& exists|t: int|
                        {
                            &&& 0 <= t < old(self)@.teams.len()
                            &&& (#[trigger] old(self)@.teams[t]).login == lower_seq(login@)
                            &&& old(self)@.team_owns(package_id, old(self)@.teams[t].id)
                            &&& final(self)@ == (RegistryView {
                                owners: old(self)@.owners.remove(
                                    owner_entry_idx(
                                        old(self)@.owners,
                                        OwnerEntry {
                                            package_id,
                                            owner: OwnerId::Team(old(self)@.teams[t].id),
                                        },
                                    ),
                                ),
                                ..old(self)@
                            })
                        }
                },
                Err(e) => final(self)@ == old(self)@ && match modify_owners_rejection(
                    old(self)@,
                    package_id,
                    requester,
                    memberships@,
                ) {
                    Some(m) => e@ == m,
                    None => e@ == (OwnerErrorView::OwnerNotFound { login: login@ }) && !exists|
                        t: int,
                    |
                        0 <= t < old(self)@.teams.len() && (#[trigger] old(self)@.teams[t]).login
                            == lower_seq(login@) && old(self)@.team_owns(
                            package_id,
                            old(self)@.teams[t].id,
                        ),
                },
            },
    {
        if let Err(e) = self.modify_owners_check(package_id, requester, memberships) {
            return Err(e);
        }
        let folded = lower_str(login);
        let n = self.teams.len();
        let mut i: usize = 0;
        while i < n
            invariant
                self@.wf(),
                self@ == old(self)@,
                modify_owners_rejection(old(self)@, package_id, requester, memberships@) is None,
                folded@ == lower_seq(login@),
                n == self@.teams.len(),
                i <= n,
                forall|j: int|
                    0 <= j < i ==> !((#[trigger] self@.teams[j]).login == lower_seq(login@)
                        && self@.team_owns(package_id, self@.teams[j].id)),
            decreases n - i,
        {
            if self.teams[i].login == folded {
                let tid = self.teams[i].id;
                let entry = OwnerEntry { package_id, owner: OwnerId::Team(tid) };
                let mut have = false;
                let m = self.owners.len();
                let mut j: usize = 0;
                while j < m
                    invariant
                        m == self@.owners.len(),
                        j <= m,
                        have ==> self@.owners.contains(entry),
                        !have ==> forall|k: int| 0 <= k < j ==> (#[trigger] self@.owners[k])
                            != entry,
                    decreases m - j,
                {
                    if self.owners[j] == entry {
                        assert(self@.owners[j as int] == entry);
                        have = true;
                    }
                    j = j + 1;
                }
                if have {
                    assert(self@.teams[i as int].login == lower_seq(login@) && self@.team_owns(
                        package_id,
                        tid,
                    ));
                    let ghost pre = self@;
                    self.remove_owner_entry(entry);
                    proof {
                        let t = i as int;
                        assert(pre == old(self)@);
                        assert(0 <= t < old(self)@.teams.len() && (#[trigger] old(
                            self,
                        )@.teams[t]).login == lower_seq(login@) && old(self)@.team_owns(
                            package_id,
                            old(self)@.teams[t].id,
                        ) && self@ == (RegistryView {
                            owners: old(self)@.owners.remove(
                                owner_entry_idx(
                                    old(self)@.owners,
                                    OwnerEntry {
                                        package_id,
                                        owner: OwnerId::Team(old(self)@.teams[t].id),
                                    },
                                ),
                            ),
                            ..old(self)@
                        }));
                    }
                    return Ok(());
                }
                assert(!self@.owners.contains(entry));
                assert(!self@.team_owns(package_id, self@.teams[i as int].id));
            }
            i = i + 1;
        }
        Err(OwnerError::OwnerNotFound { login: String::from_str(login) })
    }

    fn only_user_owner_exec(&self, package_id: u64, target: u64) -> (r: bool)
        ensures
            r == only_user_owner(self@.owners, package_id, target),
    {
        let n = self.owners.len();
        let mut i: usize = 0;
        while i < n
            invariant
                n == self@.owners.len(),
                i <= n,
                forall|j: int|
                    0 <= j < i && (#[trigger] self@.owners[j]).package_id == package_id
                        ==> match self@.owners[j].owner {
                        OwnerId::User(u) => u == target,
                        OwnerId::Team(_) => true,
                    },
            decreases n - i,
        {
            let e = self.owners[i];
            if e.package_id == package_id {
                if let OwnerId::User(u) = e.owner {
                    if u != target {
                        assert(self@.owners[i as int].package_id == package_id);
                        return false;
                    }
                }
            }
            i = i + 1;
        }
        true
    }

    fn has_team_owner_exec(&self, package_id: u64) -> (r: bool)
        ensures
            r == has_team_owner(self@.owners, package_id),
    {
        let n = self.owners.len();
        let mut i: usize = 0;
        while i < n
            invariant
                n == self@.owners.len(),
                i <= n,
                forall|j: int|
                    0 <= j < i ==> !((#[trigger] self@.owners[j]).package_id == package_id
                        && self@.owners[j].owner is Team),
            decreases n - i,
        {
            let e = self.owners[i];
            if e.package_id == package_id {
                if let OwnerId::Team(_) = e.owner {
                    assert(self@.owners[i as int].package_id == package_id && self@.owners[i as int].owner
                        is Team);
                    return true;
                }
            }
            i = i + 1;
        }
        false
    }

    /// Removes one ownership entry that is known to be present.
    fn remove_owner_entry(&mut self, entry: OwnerEntry)
        requires
            old(self)@.wf(),
            old(self)@.owners.contains(entry),
        ensures
            final(self)@.wf(),
            final(self)@ == (RegistryView {
                owners: old(self)@.owners.remove(owner_entry_idx(old(self)@.owners, entry)),
                ..old(self)@
            }),
    {
        let ghost os = old(self)@.owners;
        let n = self.owners.len();
        let mut i: usize = 0;
        while i < n
            invariant
                os == self@.owners,
                self@ == old(self)@,
                self@.wf(),
                n == self@.owners.len(),
                i <= n,
                os.contains(entry),
                forall|j: int| 0 <= j < i ==> (#[trigger] os[j]) != entry,
            decreases n - i,
        {
            if self.owners[i] == entry {
                proof {
                    assert(os[i as int] == entry);
                    let k = owner_entry_idx(os, entry);
                    assert(0 <= k < os.len() && os[k] == entry) by {
                        let w = choose|w: int| 0 <= w < os.len() && os[w] == entry;
                        assert(os[w] == entry);
                    }
                    if k < i as int {
                        assert(os[k] != entry);
                    } else if k > i as int {
                        assert(os[i as int] != os[k]);
                        assert(false);
                    }
                    assert(k == i as int);
                }
                self.owners.remove(i);
                proof {
                    let after = self@.owners;
                    assert(after == os.remove(i as int));
                    assert forall|p: int, q: int|
                        0 <= p < q < after.len() implies after[p] != after[q] by {
                        let p0 = if p < i as int {
                            p
                        } else {
                            p + 1
                        };
                        let q0 = if q < i as int {
                            q
                        } else {
                            q + 1
                        };
                        assert(after[p] == os[p0] && after[q] == os[q0]);
                    }
                    assert forall|p: int|
                        0 <= p < after.len() implies (#[trigger] after[p]).package_id
                        < self@.packages.len() && match after[p].owner {
                        OwnerId::User(_) => true,
                        OwnerId::Team(t) => t < self@.teams.len(),
                    } by {
                        let p0 = if p < i as int {
                            p
                        } else {
                            p + 1
                        };
                        assert(after[p] == os[p0]);
                    }
                    assert(self@ =~~= (RegistryView {
                        owners: os.remove(owner_entry_idx(os, entry)),
                        ..old(self)@
                    }));
                }
                return ;
            }
            i = i + 1;
        }
        proof {
            let w = choose|w: int| 0 <= w < os.len() && os[w] == entry;
            assert(os[w] != entry);
            assert(false);
        }
    }
}

/// Team lookups by login are case-insensitive: two logins that agree up to
/// case resolve to the same team row.
pub proof fn lemma_team_lookup_case_insensitive(ts: Seq<TeamView>, a: Seq<char>, b: Seq<char>)
    requires
        crate::strutil::lower_eq(a, b),
    ensures
        has_team_with_login(ts, a) == has_team_with_login(ts, b),
        team_login_idx(ts, a) == team_login_idx(ts, b),
{
    assert(lower_seq(a) == lower_seq(b));
}

/// After a team is registered under one casing of its login, a query under
/// any other casing resolves to a registered team.
pub proof fn lemma_add_then_lookup_case_insensitive(
    ts: Seq<TeamView>,
    org_id: u64,
    team_id: u64,
    added: Seq<char>,
    queried: Seq<char>,
)
    requires
        crate::strutil::lower_eq(added, queried),
    ensures
        has_team_with_login(
            spec_teams_after_upsert(ts, org_id, team_id, lower_seq(added)),
            queried,
        ),
{
    let ts2 = spec_teams_after_upsert(ts, org_id, team_id, lower_seq(added));
    crate::strutil::lemma_lower_seq_idempotent(added);
    if has_team_key(ts, org_id, team_id) {
        let i = team_key_idx(ts, org_id, team_id);
        assert(ts2[i].login == lower_seq(added));
        assert(ts2[i].login == lower_seq(queried));
    } else {
        let i = ts.len() as int;
        assert(ts2[i].login == lower_seq(queried));
    }
}

/// Removing the last individual owner while a team owner remains is always
/// rejected with the fixed message, whoever asks.
pub proof fn lemma_last_individual_owner_kept(
    reg: RegistryView,
    package_id: u64,
    requester: u64,
    target: u64,
    target_login: Seq<char>,
    ms: Seq<MembershipAnswer>,
)
    requires
        crate::rights::owners_have_user(reg.owners, package_id, target),
        only_user_owner(reg.owners, package_id, target),
        has_team_owner(reg.owners, package_id),
    ensures
        remove_user_rejection(reg, package_id, requester, target, target_login, ms) != None::<
            OwnerErrorView,
        >,
        modify_owners_rejection(reg, package_id, requester, ms) is None
            ==> remove_user_rejection(reg, package_id, requester, target, target_login, ms)
            == Some(OwnerErrorView::LastIndividualOwner),
{
}

/// Removing a team owner under mere team membership is rejected: owner
/// management takes a direct individual owner.
pub proof fn lemma_team_member_cannot_modify(
    reg: RegistryView,
    package_id: u64,
    requester: u64,
    login: Seq<char>,
    ms: Seq<MembershipAnswer>,
)
    requires
        !crate::rights::owners_have_user(reg.owners, package_id, requester),
        spec_rights(reg.owners, reg.teams, ms, package_id, requester) == Ok::<
            Capability,
            crate::rights::RightsError,
        >(Capability::Publish),
    ensures
        remove_team_rejection(reg, package_id, requester, login, ms) == Some(
            OwnerErrorView::TeamMemberCannotModify,
        ),
{
}

} // verus!
