//! The rights resolver.
//!
//! Computes an ordered capability level for an actor against a package: a
//! direct individual owner publishes, a member of an owning team publishes,
//! anyone may create a name that does not exist yet, and everyone else gets
//! nothing. Team-membership lookups are an external collaborator's work; the
//! resolver receives their answers and keeps a failed lookup distinct from a
//! plain denial.

use vstd::prelude::*;

use crate::registry::{OwnerEntry, OwnerId, Team, TeamView};

verus! {

/// The ordered capability levels.
#[derive(Clone, Copy, Debug, PartialEq, Eq, Structural)]
pub enum Capability {
    NoAccess,
    Read,
    Publish,
}

impl Capability {
    /// The position of the capability in the total order.
    pub open spec fn level(self) -> int {
        match self {
            Capability::NoAccess => 0,
            Capability::Read => 1,
            Capability::Publish => 2,
        }
    }

    fn level_exec(&self) -> (r: u64)
        ensures
            r as int == self.level(),
    {
        match self {
            Capability::NoAccess => 0,
            Capability::Read => 1,
            Capability::Publish => 2,
        }
    }

    /// Whether this capability is at least the other in the total order.
    pub fn at_least(&self, other: &Capability) -> (r: bool)
        ensures
            r == (self.level() >= other.level()),
    {
        self.level_exec() >= other.level_exec()
    }
}

#[derive(Clone, Copy, Debug, PartialEq, Eq, Structural)]
pub enum RightsError {
    /// The external membership lookup failed for an owning team, which is
    /// distinct from a plain denial.
    MembershipLookupFailed,
}

/// One answer from the external identity collaborator about the requesting
/// actor's membership in a team; `None` records a failed lookup.
#[derive(Clone, Copy, Debug, PartialEq, Eq, Structural)]
pub struct MembershipAnswer {
    pub org_id: u64,
    pub team_id: u64,
    pub answer: Option<bool>,
}

/// Whether the answers certify membership in the team.
pub open spec fn team_member_known(ms: Seq<MembershipAnswer>, org_id: u64, team_id: u64) -> bool {
    exists|i: int|
        0 <= i < ms.len() && (#[trigger] ms[i]).org_id == org_id && ms[i].team_id == team_id
            && ms[i].answer == Some(true)
}

/// Whether the lookup for the team came back at all.
pub open spec fn lookup_answered(ms: Seq<MembershipAnswer>, org_id: u64, team_id: u64) -> bool {
    exists|i: int|
        0 <= i < ms.len() && (#[trigger] ms[i]).org_id == org_id && ms[i].team_id == team_id
            && ms[i].answer is Some
}

/// Whether the package has the user as a direct individual owner.
pub open spec fn owners_have_user(os: Seq<OwnerEntry>, package_id: u64, user_id: u64) -> bool {
    os.contains(OwnerEntry { package_id, owner: OwnerId::User(user_id) })
}

/// Whether some owning team's membership answer certifies the actor.
pub open spec fn owns_via_team(
    os: Seq<OwnerEntry>,
    ts: Seq<TeamView>,
    ms: Seq<MembershipAnswer>,
    package_id: u64,
) -> bool {
    exists|i: int|
        0 <= i < os.len() && (#[trigger] os[i]).package_id == package_id && match os[i].owner {
            OwnerId::Team(t) => t < ts.len() && team_member_known(
                ms,
                ts[t as int].org_id,
                ts[t as int].team_id,
            ),
            OwnerId::User(_) => false,
        }
}

/// Whether some owning team's membership lookup failed.
pub open spec fn team_lookup_failed(
    os: Seq<OwnerEntry>,
    ts: Seq<TeamView>,
    ms: Seq<MembershipAnswer>,
    package_id: u64,
) -> bool {
    exists|i: int|
        0 <= i < os.len() && (#[trigger] os[i]).package_id == package_id && match os[i].owner {
            OwnerId::Team(t) => t < ts.len() && !lookup_answered(
                ms,
                ts[t as int].org_id,
                ts[t as int].team_id,
            ),
            OwnerId::User(_) => false,
        }
}

/// The capability the actor holds over an existing package: direct owners
/// and certified team members publish; otherwise a failed lookup surfaces as
/// its own error; otherwise nothing.
pub open spec fn spec_rights(
    os: Seq<OwnerEntry>,
    ts: Seq<TeamView>,
    ms: Seq<MembershipAnswer>,
    package_id: u64,
    user_id: u64,
) -> Result<Capability, RightsError> {
    if owners_have_user(os, package_id, user_id) {
        Ok(Capability::Publish)
    } else if owns_via_team(os, ts, ms, package_id) {
        Ok(Capability::Publish)
    } else if team_lookup_failed(os, ts, ms, package_id) {
        Err(RightsError::MembershipLookupFailed)
    } else {
        Ok(Capability::NoAccess)
    }
}

/// Looks the team up in the membership answers: whether membership is
/// certified, and whether any lookup answered at all.
fn membership_answer(ms: &Vec<MembershipAnswer>, org_id: u64, team_id: u64) -> (r: (bool, bool))
    ensures
        r.0 == team_member_known(ms@, org_id, team_id),
        r.1 == lookup_answered(ms@, org_id, team_id),
{
    let n = ms.len();
    let mut member = false;
    let mut answered = false;
    let mut i: usize = 0;
    while i < n
        invariant
            n == ms@.len(),
            i <= n,
            member == team_member_known(ms@.take(i as int), org_id, team_id),
            answered == lookup_answered(ms@.take(i as int), org_id, team_id),
        decreases n - i,
    {
        let a = ms[i];
        if a.org_id == org_id && a.team_id == team_id {
            match a.answer {
                Some(true) => {
                    member = true;
                    answered = true;
                },
                Some(false) => {
                    answered = true;
                },
                None => {},
            }
        }
        proof {
            let pre = ms@.take(i as int);
            let cur = ms@.take(i + 1);
            assert(cur.drop_last() == pre);
            assert(cur[i as int] == ms@[i as int]);
            if member {
                assert(team_member_known(cur, org_id, team_id)) by {
                    if team_member_known(pre, org_id, team_id) {
                        let w = choose|k: int|
                            0 <= k < pre.len() && (#[trigger] pre[k]).org_id == org_id
                                && pre[k].team_id == team_id && pre[k].answer == Some(true);
                        assert(cur[w] == pre[w]);
                    }
                }
            } else {
                assert(!team_member_known(cur, org_id, team_id)) by {
                    if team_member_known(cur, org_id, team_id) {
                        let w = choose|k: int|
                            0 <= k < cur.len() && (#[trigger] cur[k]).org_id == org_id
                                && cur[k].team_id == team_id && cur[k].answer == Some(true);
                        if w < i as int {
                            assert(pre[w] == cur[w]);
                        }
                    }
                }
            }
            if answered {
                assert(lookup_answered(cur, org_id, team_id)) by {
                    if lookup_answered(pre, org_id, team_id) {
                        let w = choose|k: int|
                            0 <= k < pre.len() && (#[trigger] pre[k]).org_id == org_id
                                && pre[k].team_id == team_id && pre[k].answer is Some;
                        assert(cur[w] == pre[w]);
                    }
                }
            } else {
                assert(!lookup_answered(cur, org_id, team_id)) by {
                    if lookup_answered(cur, org_id, team_id) {
                        let w = choose|k: int|
                            0 <= k < cur.len() && (#[trigger] cur[k]).org_id == org_id
                                && cur[k].team_id == team_id && cur[k].answer is Some;
                        if w < i as int {
                            assert(pre[w] == cur[w]);
                        }
                    }
                }
            }
        }
        i = i + 1;
    }
    assert(ms@.take(n as int) == ms@);
    (member, answered)
}

/// Resolves the actor's capability over an existing package from the
/// ownership entries, the team table and the membership answers.
pub fn resolve_rights(
    owners: &Vec<OwnerEntry>,
    teams: &Vec<Team>,
    memberships: &Vec<MembershipAnswer>,
    package_id: u64,
    user_id: u64,
) -> (r: Result<Capability, RightsError>)
    requires
        forall|i: int|
            0 <= i < owners@.len() ==> match (#[trigger] owners@[i]).owner {
                OwnerId::Team(t) => t < teams@.len(),
                OwnerId::User(_) => true,
            },
    ensures
        r == spec_rights(
            owners@,
            teams@.map_values(|t: Team| t@),
            memberships@,
            package_id,
            user_id,
        ),
{
    let ghost ts = teams@.map_values(|t: Team| t@);
    let n = owners.len();
    let mut i: usize = 0;
    while i < n
        invariant
            n == owners@.len(),
            i <= n,
            forall|j: int|
                0 <= j < i ==> owners@[j] != (OwnerEntry {
                    package_id,
                    owner: OwnerId::User(user_id),
                }),
        decreases n - i,
    {
        let e = owners[i];
        if e.package_id == package_id {
            if let OwnerId::User(u) = e.owner {
                if u == user_id {
                    assert(owners@.contains(
                        OwnerEntry { package_id, owner: OwnerId::User(user_id) },
                    )) by {
                        assert(owners@[i as int] == OwnerEntry {
                            package_id,
                            owner: OwnerId::User(user_id),
                        });
                    }
                    return Ok(Capability::Publish);
                }
            }
        }
        i = i + 1;
    }
    assert(!owners_have_user(owners@, package_id, user_id));
    let mut any_failed = false;
    let mut i: usize = 0;
    while i < n
        invariant
            n == owners@.len(),
            i <= n,
            ts == teams@.map_values(|t: Team| t@),
            forall|j: int|
                0 <= j < owners@.len() ==> match (#[trigger] owners@[j]).owner {
                    OwnerId::Team(t) => t < teams@.len(),
                    OwnerId::User(_) => true,
                },
            forall|j: int|
                0 <= j < i ==> !((#[trigger] owners@[j]).package_id == package_id
                    && match owners@[j].owner {
                    OwnerId::Team(t) => t < ts.len() && team_member_known(
                        memberships@,
                        ts[t as int].org_id,
                        ts[t as int].team_id,
                    ),
                    OwnerId::User(_) => false,
                }),
            any_failed == (exists|j: int|
                0 <= j < i && (#[trigger] owners@[j]).package_id == package_id
                    && match owners@[j].owner {
                    OwnerId::Team(t) => t < ts.len() && !lookup_answered(
                        memberships@,
                        ts[t as int].org_id,
                        ts[t as int].team_id,
                    ),
                    OwnerId::User(_) => false,
                }),
        decreases n - i,
    {
        let e = owners[i];
        assert(owners@[i as int] == e);
        if e.package_id == package_id {
            if let OwnerId::Team(t) = e.owner {
                assert(e.owner == OwnerId::Team(t));
                assert(t < teams@.len());
                let tlen = teams.len();
                assert(t < tlen as u64);
                let ti = t as usize;
                assert(ti as int == t as int);
                let team = &teams[ti];
                assert(ts[t as int] == teams@[t as int]@);
                assert(ts[t as int].org_id == team.org_id && ts[t as int].team_id == team.team_id);
                let (member, answered) = membership_answer(memberships, team.org_id, team.team_id);
                if member {
                    assert(owns_via_team(owners@, ts, memberships@, package_id)) by {
                        assert((owners@[i as int]).package_id == package_id
                            && owners@[i as int].owner == OwnerId::Team(t) && t < ts.len()
                            && team_member_known(
                            memberships@,
                            ts[t as int].org_id,
                            ts[t as int].team_id,
                        ));
                    }
                    return Ok(Capability::Publish);
                }
                assert(!team_member_known(memberships@, ts[t as int].org_id, ts[t as int].team_id));
                if !answered {
                    any_failed = true;
                    assert((owners@[i as int]).package_id == package_id && match owners@[i as int].owner {
                        OwnerId::Team(t2) => t2 < ts.len() && !lookup_answered(
                            memberships@,
                            ts[t2 as int].org_id,
                            ts[t2 as int].team_id,
                        ),
                        OwnerId::User(_) => false,
                    });
                }
            }
        }
        i = i + 1;
    }
    assert(!owns_via_team(owners@, ts, memberships@, package_id));
    if any_failed {
        assert(team_lookup_failed(owners@, ts, memberships@, package_id));
        Err(RightsError::MembershipLookupFailed)
    } else {
        assert(!team_lookup_failed(owners@, ts, memberships@, package_id));
        Ok(Capability::NoAccess)
    }
}

} // verus!
