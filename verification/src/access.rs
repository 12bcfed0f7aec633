//! Who may enter a tenant and its projects.
//!
//! A tenant has an owner (who enters every project), members (who enter the
//! tenant), and projects that may narrow their audience to listed members.
//! A project that lists nobody is open to everyone in the tenant.

use vstd::prelude::*;

use crate::errors::AppError;

verus! {

/// Role of a tenant member.
#[derive(Debug, Clone, Copy, PartialEq, Eq, Structural)]
pub enum TenantRole {
    Admin,
    Member,
    Viewer,
}

/// Role of a project member.
#[derive(Debug, Clone, Copy, PartialEq, Eq, Structural)]
pub enum ProjectRole {
    Admin,
    Member,
    Viewer,
}

/// A tenant and its owner.
#[derive(Debug, Clone, Copy, PartialEq, Eq)]
pub struct Tenant {
    pub id: u128,
    pub owner_id: u128,
}

/// A project and the tenant it belongs to.
#[derive(Debug, Clone, Copy, PartialEq, Eq)]
pub struct Project {
    pub id: u128,
    pub tenant_id: u128,
    /// A personal project (an inbox) belongs to one user.
    pub is_personal: bool,
    pub personal_owner_id: Option<u128>,
}

/// A row of `tenant_members`. The owner has none.
#[derive(Debug, Clone, Copy, PartialEq, Eq)]
pub struct TenantMember {
    pub id: u128,
    pub tenant_id: u128,
    pub user_id: u128,
    pub role: TenantRole,
}

/// A row of `project_members`: narrows a project to the listed users.
#[derive(Debug, Clone, Copy, PartialEq, Eq)]
pub struct ProjectMember {
    pub id: u128,
    pub project_id: u128,
    pub user_id: u128,
    pub role: ProjectRole,
}

/// Whether `user` has a membership row in the tenant.
pub open spec fn spec_is_tenant_member(members: Seq<TenantMember>, tenant_id: u128, user_id: u128) -> bool {
    exists|k: int| 0 <= k < members.len() && members[k].tenant_id == tenant_id && members[k].user_id == user_id
}

/// Whether `user` is listed on the project.
pub open spec fn listed_on(members: Seq<ProjectMember>, project_id: u128, user_id: u128) -> bool {
    exists|k: int| 0 <= k < members.len() && members[k].project_id == project_id && members[k].user_id == user_id
}

/// Whether the project lists anybody.
pub open spec fn restricted(members: Seq<ProjectMember>, project_id: u128) -> bool {
    exists|k: int| 0 <= k < members.len() && members[k].project_id == project_id
}

/// The project rule: the listed users may enter; beyond them, a project that
/// lists nobody is open to the whole tenant, and a personal project only to
/// the user it belongs to (it stays closed when its rows are gone).
pub open spec fn spec_open_or_member(members: Seq<ProjectMember>, project: Project, user_id: u128) -> bool {
    listed_on(members, project.id, user_id) || if project.is_personal {
        project.personal_owner_id == Some(user_id)
    } else {
        !restricted(members, project.id)
    }
}

/// Whether the user has a membership row in the tenant (the owner has none).
pub fn is_tenant_member(members: &[TenantMember], tenant_id: u128, user_id: u128) -> (r: bool)
    ensures
        r == spec_is_tenant_member(members@, tenant_id, user_id),
{
    let mut i: usize = 0;
    while i < members.len()
        invariant
            i <= members.len(),
            forall|k: int| 0 <= k < i ==> !(members@[k].tenant_id == tenant_id && members@[k].user_id == user_id),
        decreases members.len() - i,
    {
        if members[i].tenant_id == tenant_id && members[i].user_id == user_id {
            return true;
        }
        i += 1;
    }
    false
}

/// Whether the user is the tenant's owner.
pub fn is_tenant_owner(tenant: Option<&Tenant>, user_id: u128) -> (r: bool)
    ensures
        r == (tenant matches Some(t) && t.owner_id == user_id),
{
    match tenant {
        Some(t) => t.owner_id == user_id,
        None => false,
    }
}

/// Whether the project lets the user in. Entering the tenant is the caller's
/// check: this is the project rule alone.
pub fn project_is_open_or_member(members: &[ProjectMember], project: &Project, user_id: u128) -> (r: bool)
    ensures
        r == spec_open_or_member(members@, *project, user_id),
{
    let project_id = project.id;
    let mut any = false;
    let mut i: usize = 0;
    while i < members.len()
        invariant
            i <= members.len(),
            project_id == project.id,
            any == exists|k: int| 0 <= k < i && members@[k].project_id == project_id,
            forall|k: int| 0 <= k < i ==> !(members@[k].project_id == project_id && members@[k].user_id == user_id),
        decreases members.len() - i,
    {
        if members[i].project_id == project_id {
            if members[i].user_id == user_id {
                return true;
            }
            any = true;
        }
        i += 1;
    }
    if project.is_personal {
        match project.personal_owner_id {
            Some(o) => o == user_id,
            None => false,
        }
    } else {
        !any
    }
}

fn contains_id(ids: &Vec<u128>, id: u128) -> (r: bool)
    ensures
        r == ids@.contains(id),
{
    let mut i: usize = 0;
    while i < ids.len()
        invariant
            i <= ids.len(),
            forall|k: int| 0 <= k < i ==> ids@[k] != id,
        decreases ids.len() - i,
    {
        if ids[i] == id {
            return true;
        }
        i += 1;
    }
    false
}

fn push_unique(ids: &mut Vec<u128>, id: u128)
    requires
        old(ids)@.no_duplicates(),
    ensures
        final(ids)@.no_duplicates(),
        forall|x: u128| final(ids)@.contains(x) <==> (old(ids)@.contains(x) || x == id),
{
    if !contains_id(ids, id) {
        let ghost before = ids@;
        ids.push(id);
        proof {
            assert(ids@ == before.push(id));
            assert forall|x: u128| ids@.contains(x) <==> (before.contains(x) || x == id) by {
                if ids@.contains(x) {
                    let k = choose|k: int| 0 <= k < ids@.len() && ids@[k] == x;
                    if k < before.len() {
                        assert(before[k] == x);
                    }
                }
                if before.contains(x) {
                    let k = choose|k: int| 0 <= k < before.len() && before[k] == x;
                    assert(ids@[k] == x);
                }
                if x == id {
                    assert(ids@[before.len() as int] == x);
                }
            }
            assert forall|a: int, b: int| 0 <= a < ids@.len() && 0 <= b < ids@.len() && a != b implies ids@[a]
                != ids@[b] by {
                if a < before.len() && b < before.len() {
                } else if a == before.len() {
                    assert(before[b] == ids@[b]);
                    assert(before.contains(before[b]));
                } else {
                    assert(before[a] == ids@[a]);
                    assert(before.contains(before[a]));
                }
            }
        }
    }
}

/// The candidate projects the user sees, each once, in the candidates' order.
/// Entering the tenant is the caller's check: this applies the project rule
/// to every candidate at once.
pub fn visible_project_ids(candidates: Vec<Project>, members: &[ProjectMember], user_id: u128) -> (r: Vec<
    u128,
>)
    ensures
        r@.no_duplicates(),
        forall|id: u128|
            r@.contains(id) <==> exists|k: int|
                0 <= k < candidates@.len() && candidates@[k].id == id && spec_open_or_member(
                    members@,
                    candidates@[k],
                    user_id,
                ),
{
    let mut out: Vec<u128> = Vec::new();
    let mut i: usize = 0;
    while i < candidates.len()
        invariant
            i <= candidates.len(),
            out@.no_duplicates(),
            forall|id: u128|
                out@.contains(id) <==> exists|k: int|
                    0 <= k < i && candidates@[k].id == id && spec_open_or_member(members@, candidates@[k], user_id),
        decreases candidates.len() - i,
    {
        let p = candidates[i];
        let open = project_is_open_or_member(members, &p, user_id);
        if open {
            push_unique(&mut out, p.id);
        }
        proof {
            assert forall|x: u128|
                out@.contains(x) <==> exists|k: int|
                    0 <= k < i + 1 && candidates@[k].id == x && spec_open_or_member(
                        members@,
                        candidates@[k],
                        user_id,
                    ) by {
                if exists|k: int|
                    0 <= k < i + 1 && candidates@[k].id == x && spec_open_or_member(members@, candidates@[k], user_id) {
                    let k = choose|k: int|
                        0 <= k < i + 1 && candidates@[k].id == x && spec_open_or_member(
                            members@,
                            candidates@[k],
                            user_id,
                        );
                    if k == i {
                        assert(candidates@[k] == p);
                    }
                }
                if open && x == p.id {
                    assert(candidates@[i as int] == p);
                }
            }
        }
        i += 1;
    }
    out
}

/// Who is notified about a project: the members of its tenant that the
/// project rule lets in (its listed members still in the tenant, or every
/// tenant member when it lists nobody), so nobody outside the tenant is
/// notified. The tenant owner is not among them. A personal project notifies
/// only the user it belongs to.
pub fn project_accessible_user_ids(
    project: Option<Project>,
    project_members: &[ProjectMember],
    tenant_members: &[TenantMember],
) -> (r: Vec<u128>)
    ensures
        r@.no_duplicates(),
        match project {
            None => r@.len() == 0,
            Some(p) => if p.is_personal {
                r@ == (match p.personal_owner_id {
                    Some(o) => seq![o],
                    None => Seq::<u128>::empty(),
                })
            } else {
                forall|u: u128|
                    r@.contains(u) <==> spec_is_tenant_member(tenant_members@, p.tenant_id, u)
                        && spec_open_or_member(project_members@, p, u)
            },
        },
{
    let p = match project {
        None => {
            return Vec::new();
        },
        Some(p) => p,
    };
    if p.is_personal {
        let mut only: Vec<u128> = Vec::new();
        if let Some(o) = p.personal_owner_id {
            only.push(o);
        }
        proof {
            assert(only@ =~= (match p.personal_owner_id {
                Some(o) => seq![o],
                None => Seq::<u128>::empty(),
            }));
        }
        return only;
    }
    let mut any_listed = false;
    let mut listed: Vec<u128> = Vec::new();
    let mut i: usize = 0;
    while i < project_members.len()
        invariant
            i <= project_members.len(),
            listed@.no_duplicates(),
            any_listed == exists|k: int| 0 <= k < i && project_members@[k].project_id == p.id,
            forall|u: u128|
                listed@.contains(u) <==> (exists|k: int|
                    0 <= k < i && project_members@[k].project_id == p.id && project_members@[k].user_id == u)
                    && spec_is_tenant_member(tenant_members@, p.tenant_id, u),
        decreases project_members.len() - i,
    {
        let m = project_members[i];
        if m.project_id == p.id {
            any_listed = true;
            if is_tenant_member(tenant_members, p.tenant_id, m.user_id) {
                push_unique(&mut listed, m.user_id);
            }
        }
        proof {
            assert forall|u: u128|
                listed@.contains(u) <==> (exists|k: int|
                    0 <= k < i + 1 && project_members@[k].project_id == p.id && project_members@[k].user_id == u)
                    && spec_is_tenant_member(tenant_members@, p.tenant_id, u) by {
                if u == m.user_id && m.project_id == p.id {
                    assert(project_members@[i as int] == m);
                }
                if exists|k: int|
                    0 <= k < i + 1 && project_members@[k].project_id == p.id && project_members@[k].user_id == u {
                    let k = choose|k: int|
                        0 <= k < i + 1 && project_members@[k].project_id == p.id && project_members@[k].user_id == u;
                    if k == i {
                        assert(project_members@[k] == m);
                    }
                }
            }
            if m.project_id == p.id {
                assert(project_members@[i as int].project_id == p.id);
            }
        }
        i += 1;
    }
    if any_listed {
        proof {
            assert forall|u: u128|
                listed@.contains(u) <==> spec_is_tenant_member(tenant_members@, p.tenant_id, u)
                    && spec_open_or_member(project_members@, p, u) by {
                assert(restricted(project_members@, p.id));
            }
        }
        return listed;
    }
    let mut everyone: Vec<u128> = Vec::new();
    let mut j: usize = 0;
    while j < tenant_members.len()
        invariant
            j <= tenant_members.len(),
            everyone@.no_duplicates(),
            forall|u: u128|
                everyone@.contains(u) <==> exists|k: int|
                    0 <= k < j && tenant_members@[k].tenant_id == p.tenant_id && tenant_members@[k].user_id == u,
        decreases tenant_members.len() - j,
    {
        let m = tenant_members[j];
        if m.tenant_id == p.tenant_id {
            push_unique(&mut everyone, m.user_id);
        }
        proof {
            assert forall|u: u128|
                everyone@.contains(u) <==> exists|k: int|
                    0 <= k < j + 1 && tenant_members@[k].tenant_id == p.tenant_id && tenant_members@[k].user_id == u by {
                if u == m.user_id && m.tenant_id == p.tenant_id {
                    assert(tenant_members@[j as int] == m);
                }
                if exists|k: int|
                    0 <= k < j + 1 && tenant_members@[k].tenant_id == p.tenant_id && tenant_members@[k].user_id == u {
                    let k = choose|k: int|
                        0 <= k < j + 1 && tenant_members@[k].tenant_id == p.tenant_id && tenant_members@[k].user_id == u;
                    if k == j {
                        assert(tenant_members@[k] == m);
                    }
                }
            }
        }
        j += 1;
    }
    proof {
        assert(!restricted(project_members@, p.id));
    }
    everyone
}

/// Whether the user may enter the project of the tenant: the owner always;
/// otherwise a tenant member the project rule lets in.
pub open spec fn spec_member_or_owner(
    tenant: Option<Tenant>,
    tenant_members: Seq<TenantMember>,
    project_members: Seq<ProjectMember>,
    tenant_id: u128,
    project: Project,
    user_id: u128,
) -> bool {
    (tenant matches Some(t) && t.owner_id == user_id) || (spec_is_tenant_member(
        tenant_members,
        tenant_id,
        user_id,
    ) && spec_open_or_member(project_members, project, user_id))
}

/// Lets the tenant owner in; otherwise requires tenant membership and the
/// project rule, answering 403 when either fails.
pub fn require_member_or_owner(
    tenant: Option<Tenant>,
    tenant_members: &[TenantMember],
    project_members: &[ProjectMember],
    tenant_id: u128,
    project: &Project,
    user_id: u128,
) -> (r: Result<(), AppError>)
    ensures
        r == (if spec_member_or_owner(tenant, tenant_members@, project_members@, tenant_id, *project, user_id) {
            Ok::<(), AppError>(())
        } else {
            Err::<(), AppError>(AppError::Forbidden)
        }),
{
    if is_tenant_owner(tenant.as_ref(), user_id) {
        return Ok(());
    }
    if !is_tenant_member(tenant_members, tenant_id, user_id) {
        return Err(AppError::Forbidden);
    }
    if project_is_open_or_member(project_members, project, user_id) {
        Ok(())
    } else {
        Err(AppError::Forbidden)
    }
}

/// The role of the user's row on the project (the first listed), if any.
pub open spec fn role_on(members: Seq<ProjectMember>, project_id: u128, user_id: u128) -> Option<ProjectRole>
    decreases members.len(),
{
    if members.len() == 0 {
        None
    } else if members[0].project_id == project_id && members[0].user_id == user_id {
        Some(members[0].role)
    } else {
        role_on(members.drop_first(), project_id, user_id)
    }
}

/// The user's row on the project (the first listed), if any.
pub fn project_role(members: &[ProjectMember], project_id: u128, user_id: u128) -> (r: Option<ProjectRole>)
    ensures
        r == role_on(members@, project_id, user_id),
{
    let mut i: usize = 0;
    assert(members@.skip(0) =~= members@);
    while i < members.len()
        invariant
            i <= members.len(),
            role_on(members@, project_id, user_id) == role_on(members@.skip(i as int), project_id, user_id),
        decreases members.len() - i,
    {
        assert(members@.skip(i as int)[0] == members@[i as int]);
        assert(members@.skip(i as int).drop_first() =~= members@.skip(i + 1));
        if members[i].project_id == project_id && members[i].user_id == user_id {
            return Some(members[i].role);
        }
        i += 1;
    }
    None
}

/// Who may manage a project's members: 404 when the project is not in the
/// tenant; then the tenant owner, or a project member whose role is admin;
/// 403 for anyone else.
pub fn require_project_admin(
    project_in_tenant: bool,
    tenant: Option<Tenant>,
    members: &[ProjectMember],
    project_id: u128,
    user_id: u128,
) -> (r: Result<(), AppError>)
    ensures
        r == (if !project_in_tenant {
            Err::<(), AppError>(AppError::NotFound)
        } else if (tenant matches Some(t) && t.owner_id == user_id) || role_on(members@, project_id, user_id)
            == Some(ProjectRole::Admin) {
            Ok::<(), AppError>(())
        } else {
            Err::<(), AppError>(AppError::Forbidden)
        }),
{
    if !project_in_tenant {
        return Err(AppError::NotFound);
    }
    if is_tenant_owner(tenant.as_ref(), user_id) {
        return Ok(());
    }
    match project_role(members, project_id, user_id) {
        Some(ProjectRole::Admin) => Ok(()),
        _ => Err(AppError::Forbidden),
    }
}

/// Whether a user still belongs to the tenant: its owner or a member.
pub open spec fn active_in_tenant(
    tenant: Option<Tenant>,
    tenant_members: Seq<TenantMember>,
    tenant_id: u128,
    user_id: u128,
) -> bool {
    (tenant matches Some(t) && t.owner_id == user_id) || spec_is_tenant_member(tenant_members, tenant_id, user_id)
}

/// Whether the user holds an admin row on the project.
pub open spec fn is_project_admin(members: Seq<ProjectMember>, project_id: u128, user_id: u128) -> bool {
    exists|k: int|
        0 <= k < members.len() && members[k].project_id == project_id && members[k].user_id == user_id
            && members[k].role == ProjectRole::Admin
}

/// Whether taking the admin role from `target` leaves no admin who still
/// belongs to the tenant.
pub open spec fn spec_would_drop_last_admin(
    members: Seq<ProjectMember>,
    tenant: Option<Tenant>,
    tenant_members: Seq<TenantMember>,
    tenant_id: u128,
    project_id: u128,
    target: u128,
) -> bool {
    &&& is_project_admin(members, project_id, target)
    &&& active_in_tenant(tenant, tenant_members, tenant_id, target)
    &&& forall|u: u128|
        u != target && is_project_admin(members, project_id, u) ==> !active_in_tenant(
            tenant,
            tenant_members,
            tenant_id,
            u,
        )
}

/// Whether removing or demoting `target` would leave the project without an
/// admin who still belongs to the tenant.
///
/// Rows of people removed from the tenant are kept on purpose; counting them
/// would let someone who can no longer act hold the last admin seat and make
/// the project impossible to fix. Only admins still in the tenant count.
pub fn would_drop_last_admin(
    members: &[ProjectMember],
    tenant: Option<Tenant>,
    tenant_members: &[TenantMember],
    tenant_id: u128,
    project_id: u128,
    target: u128,
) -> (r: bool)
    ensures
        r == spec_would_drop_last_admin(members@, tenant, tenant_members@, tenant_id, project_id, target),
{
    let mut target_is_admin = false;
    let mut other_active = false;
    let mut i: usize = 0;
    while i < members.len()
        invariant
            i <= members.len(),
            target_is_admin == exists|k: int|
                0 <= k < i && members@[k].project_id == project_id && members@[k].user_id == target
                    && members@[k].role == ProjectRole::Admin,
            other_active == exists|k: int|
                0 <= k < i && members@[k].project_id == project_id && members@[k].user_id != target
                    && members@[k].role == ProjectRole::Admin && active_in_tenant(
                    tenant,
                    tenant_members@,
                    tenant_id,
                    members@[k].user_id,
                ),
        decreases members.len() - i,
    {
        let m = members[i];
        if m.project_id == project_id && m.role == ProjectRole::Admin {
            if m.user_id == target {
                target_is_admin = true;
            } else if is_tenant_owner(tenant.as_ref(), m.user_id) || is_tenant_member(
                tenant_members,
                tenant_id,
                m.user_id,
            ) {
                other_active = true;
            }
        }
        i += 1;
    }
    let target_active = is_tenant_owner(tenant.as_ref(), target) || is_tenant_member(
        tenant_members,
        tenant_id,
        target,
    );
    proof {
        if other_active {
            let k = choose|k: int|
                0 <= k < members.len() && members@[k].project_id == project_id && members@[k].user_id != target
                    && members@[k].role == ProjectRole::Admin && active_in_tenant(
                    tenant,
                    tenant_members@,
                    tenant_id,
                    members@[k].user_id,
                );
            assert(is_project_admin(members@, project_id, members@[k].user_id));
        }
    }
    target_is_admin && target_active && !other_active
}

/// Whether a user may be added to a project: they must exist (else 404),
/// belong to the tenant as owner or member (else 400: a project narrows the
/// tenant, it does not extend it), and not be listed yet (else 409).
pub fn admit_project_member(
    user_exists: bool,
    tenant: Option<Tenant>,
    tenant_members: &[TenantMember],
    project_members: &[ProjectMember],
    tenant_id: u128,
    project_id: u128,
    user_id: u128,
) -> (r: Result<(), AppError>)
    ensures
        r == (if !user_exists {
            Err::<(), AppError>(AppError::NotFound)
        } else if !active_in_tenant(tenant, tenant_members@, tenant_id, user_id) {
            Err::<(), AppError>(AppError::BadRequest)
        } else if listed_on(project_members@, project_id, user_id) {
            Err::<(), AppError>(AppError::Conflict)
        } else {
            Ok::<(), AppError>(())
        }),
{
    if !user_exists {
        return Err(AppError::NotFound);
    }
    if !is_tenant_owner(tenant.as_ref(), user_id) && !is_tenant_member(tenant_members, tenant_id, user_id) {
        return Err(AppError::BadRequest);
    }
    let mut i: usize = 0;
    while i < project_members.len()
        invariant
            i <= project_members.len(),
            user_exists,
            active_in_tenant(tenant, tenant_members@, tenant_id, user_id),
            forall|k: int|
                0 <= k < i ==> !(project_members@[k].project_id == project_id && project_members@[k].user_id
                    == user_id),
        decreases project_members.len() - i,
    {
        if project_members[i].project_id == project_id && project_members[i].user_id == user_id {
            assert(listed_on(project_members@, project_id, user_id)) by {
                assert(project_members@[i as int].project_id == project_id);
            }
            return Err(AppError::Conflict);
        }
        i += 1;
    }
    Ok(())
}

/// Whether a change of the user's project role may proceed: demoting the last
/// admin still in the tenant is refused with 409.
pub fn check_role_change(
    new_role: ProjectRole,
    members: &[ProjectMember],
    tenant: Option<Tenant>,
    tenant_members: &[TenantMember],
    tenant_id: u128,
    project_id: u128,
    target: u128,
) -> (r: Result<(), AppError>)
    ensures
        r == (if new_role != ProjectRole::Admin && spec_would_drop_last_admin(
            members@,
            tenant,
            tenant_members@,
            tenant_id,
            project_id,
            target,
        ) {
            Err::<(), AppError>(AppError::Conflict)
        } else {
            Ok::<(), AppError>(())
        }),
{
    if new_role != ProjectRole::Admin && would_drop_last_admin(
        members,
        tenant,
        tenant_members,
        tenant_id,
        project_id,
        target,
    ) {
        Err(AppError::Conflict)
    } else {
        Ok(())
    }
}

/// Whether removing the user from the project may proceed: removing the last
/// admin still in the tenant is refused with 409.
pub fn check_removal(
    members: &[ProjectMember],
    tenant: Option<Tenant>,
    tenant_members: &[TenantMember],
    tenant_id: u128,
    project_id: u128,
    target: u128,
) -> (r: Result<(), AppError>)
    ensures
        r == (if spec_would_drop_last_admin(members@, tenant, tenant_members@, tenant_id, project_id, target) {
            Err::<(), AppError>(AppError::Conflict)
        } else {
            Ok::<(), AppError>(())
        }),
{
    if would_drop_last_admin(members, tenant, tenant_members, tenant_id, project_id, target) {
        Err(AppError::Conflict)
    } else {
        Ok(())
    }
}

/// Whether the user is listed on the project.
fn is_listed(members: &[ProjectMember], project_id: u128, user_id: u128) -> (r: bool)
    ensures
        r == listed_on(members@, project_id, user_id),
{
    let mut i: usize = 0;
    while i < members.len()
        invariant
            i <= members.len(),
            forall|k: int| 0 <= k < i ==> !(members@[k].project_id == project_id && members@[k].user_id == user_id),
        decreases members.len() - i,
    {
        if members[i].project_id == project_id && members[i].user_id == user_id {
            return true;
        }
        i += 1;
    }
    false
}

/// A row after giving `target` the role `role` on the project.
pub open spec fn role_changed(m: ProjectMember, project_id: u128, target: u128, role: ProjectRole) -> ProjectMember {
    if m.project_id == project_id && m.user_id == target {
        ProjectMember { id: m.id, project_id: m.project_id, user_id: m.user_id, role }
    } else {
        m
    }
}

/// The rows after giving `target` the role `role` on the project.
pub open spec fn with_role(
    members: Seq<ProjectMember>,
    project_id: u128,
    target: u128,
    role: ProjectRole,
) -> Seq<ProjectMember> {
    Seq::new(members.len(), |k: int| role_changed(members[k], project_id, target, role))
}

/// The rows after removing `target` from the project, the others in order.
pub open spec fn without_member(members: Seq<ProjectMember>, project_id: u128, target: u128) -> Seq<
    ProjectMember,
>
    decreases members.len(),
{
    if members.len() == 0 {
        Seq::empty()
    } else {
        let rest = without_member(members.drop_last(), project_id, target);
        let m = members.last();
        if m.project_id == project_id && m.user_id == target {
            rest
        } else {
            rest.push(m)
        }
    }
}

/// Changes the user's role on the project (`update_member`): 404 when the
/// user is not listed, 409 when demoting the last admin still in the tenant,
/// else the rows with the new role.
pub fn change_member_role(
    members: &[ProjectMember],
    tenant: Option<Tenant>,
    tenant_members: &[TenantMember],
    tenant_id: u128,
    project_id: u128,
    target: u128,
    role: ProjectRole,
) -> (r: Result<Vec<ProjectMember>, AppError>)
    ensures
        if !listed_on(members@, project_id, target) {
            r == Err::<Vec<ProjectMember>, AppError>(AppError::NotFound)
        } else if role != ProjectRole::Admin && spec_would_drop_last_admin(
            members@,
            tenant,
            tenant_members@,
            tenant_id,
            project_id,
            target,
        ) {
            r == Err::<Vec<ProjectMember>, AppError>(AppError::Conflict)
        } else {
            r matches Ok(rows) && rows@ == with_role(members@, project_id, target, role)
        },
{
    if !is_listed(members, project_id, target) {
        return Err(AppError::NotFound);
    }
    if let Err(e) = check_role_change(role, members, tenant, tenant_members, tenant_id, project_id, target) {
        return Err(e);
    }
    let mut rows: Vec<ProjectMember> = Vec::new();
    let mut i: usize = 0;
    while i < members.len()
        invariant
            i <= members.len(),
            rows@.len() == i,
            forall|k: int| 0 <= k < i ==> rows@[k] == role_changed(members@[k], project_id, target, role),
        decreases members.len() - i,
    {
        let m = members[i];
        if m.project_id == project_id && m.user_id == target {
            rows.push(ProjectMember { id: m.id, project_id: m.project_id, user_id: m.user_id, role });
        } else {
            rows.push(m);
        }
        i += 1;
    }
    proof {
        assert(rows@ =~= with_role(members@, project_id, target, role));
    }
    Ok(rows)
}

/// Removes the user from the project (`remove_member`): 404 when the user is
/// not listed, 409 when it is the last admin still in the tenant, else the
/// rows without the user's.
pub fn remove_project_member(
    members: &[ProjectMember],
    tenant: Option<Tenant>,
    tenant_members: &[TenantMember],
    tenant_id: u128,
    project_id: u128,
    target: u128,
) -> (r: Result<Vec<ProjectMember>, AppError>)
    ensures
        if !listed_on(members@, project_id, target) {
            r == Err::<Vec<ProjectMember>, AppError>(AppError::NotFound)
        } else if spec_would_drop_last_admin(members@, tenant, tenant_members@, tenant_id, project_id, target) {
            r == Err::<Vec<ProjectMember>, AppError>(AppError::Conflict)
        } else {
            r matches Ok(rows) && rows@ == without_member(members@, project_id, target)
        },
{
    if !is_listed(members, project_id, target) {
        return Err(AppError::NotFound);
    }
    if let Err(e) = check_removal(members, tenant, tenant_members, tenant_id, project_id, target) {
        return Err(e);
    }
    let mut rows: Vec<ProjectMember> = Vec::new();
    let mut i: usize = 0;
    while i < members.len()
        invariant
            i <= members.len(),
            rows@ == without_member(members@.take(i as int), project_id, target),
        decreases members.len() - i,
    {
        proof {
            assert(members@.take(i + 1).drop_last() =~= members@.take(i as int));
        }
        let m = members[i];
        if !(m.project_id == project_id && m.user_id == target) {
            rows.push(m);
        }
        i += 1;
    }
    proof {
        assert(members@.take(members.len() as int) =~= members@);
    }
    Ok(rows)
}

/// The answer describing a tenant member.
#[derive(Debug, Clone, Copy, PartialEq, Eq)]
pub struct TenantMemberResponse {
    pub id: u128,
    pub tenant_id: u128,
    pub user_id: u128,
    pub role: TenantRole,
}

impl TenantMemberResponse {
    /// The answer for a membership row.
    pub fn from_member(model: TenantMember) -> (r: TenantMemberResponse)
        ensures
            r.id == model.id && r.tenant_id == model.tenant_id && r.user_id == model.user_id && r.role
                == model.role,
    {
        TenantMemberResponse { id: model.id, tenant_id: model.tenant_id, user_id: model.user_id, role: model.role }
    }
}

/// A request to add a tenant member.
#[derive(Debug, Clone, Copy, PartialEq, Eq)]
pub struct AddTenantMemberRequest {
    pub user_id: u128,
    pub role: TenantRole,
}

/// A request to change a tenant member's role.
#[derive(Debug, Clone, Copy, PartialEq, Eq)]
pub struct UpdateTenantMemberRequest {
    pub role: TenantRole,
}


/// Notifications follow the entry rule and stay inside the tenant: for a
/// project that is not personal, the recipients `project_accessible_user_ids`
/// gives are exactly the users who may enter the project and are members of
/// its tenant; the tenant owner, who enters every project, is not added for
/// that. Nobody outside the tenant is notified, whatever rows of theirs remain
/// on the project.
pub proof fn lemma_recipients_follow_the_project_rule(
    project: Project,
    tenant: Option<Tenant>,
    project_members: Seq<ProjectMember>,
    tenant_members: Seq<TenantMember>,
    user_id: u128,
    recipients: Seq<u128>,
)
    requires
        !project.is_personal,
        forall|u: u128|
            recipients.contains(u) <==> spec_is_tenant_member(tenant_members, project.tenant_id, u)
                && spec_open_or_member(project_members, project, u),
    ensures
        recipients.contains(user_id) ==> spec_is_tenant_member(tenant_members, project.tenant_id, user_id),
        recipients.contains(user_id) ==> spec_member_or_owner(
            tenant,
            tenant_members,
            project_members,
            project.tenant_id,
            project,
            user_id,
        ),
        spec_is_tenant_member(tenant_members, project.tenant_id, user_id) && !(tenant matches Some(t)
            && t.owner_id == user_id) ==> (recipients.contains(user_id) <==> spec_member_or_owner(
            tenant,
            tenant_members,
            project_members,
            project.tenant_id,
            project,
            user_id,
        )),
{
}

/// The last-admin guard keeps the project manageable: when some admin still in
/// the tenant exists and the guard lets `target` be removed or demoted, an
/// admin still in the tenant other than `target` remains.
pub proof fn lemma_guard_keeps_an_active_admin(
    members: Seq<ProjectMember>,
    tenant: Option<Tenant>,
    tenant_members: Seq<TenantMember>,
    tenant_id: u128,
    project_id: u128,
    target: u128,
    admin: u128,
)
    requires
        is_project_admin(members, project_id, admin),
        active_in_tenant(tenant, tenant_members, tenant_id, admin),
        !spec_would_drop_last_admin(members, tenant, tenant_members, tenant_id, project_id, target),
    ensures
        exists|u: u128|
            u != target && is_project_admin(members, project_id, u) && active_in_tenant(
                tenant,
                tenant_members,
                tenant_id,
                u,
            ),
{
    if admin == target {
        let u = choose|u: u128|
            !(u != target && is_project_admin(members, project_id, u) ==> !active_in_tenant(
                tenant,
                tenant_members,
                tenant_id,
                u,
            ));
        assert(u != target && is_project_admin(members, project_id, u) && active_in_tenant(
            tenant,
            tenant_members,
            tenant_id,
            u,
        ));
    } else {
        assert(admin != target && is_project_admin(members, project_id, admin) && active_in_tenant(
            tenant,
            tenant_members,
            tenant_id,
            admin,
        ));
    }
}

/// A change to a project's members.
#[derive(Debug, Clone, Copy, PartialEq, Eq, Structural)]
pub enum MemberChange {
    /// Give the user this role.
    Role(u128, ProjectRole),
    /// Remove the user.
    Remove(u128),
}

/// Whether a change goes through against the rows as they are when it runs
/// (what `change_member_role` and `remove_project_member` check).
pub open spec fn change_allowed(
    members: Seq<ProjectMember>,
    tenant: Option<Tenant>,
    tenant_members: Seq<TenantMember>,
    tenant_id: u128,
    project_id: u128,
    change: MemberChange,
) -> bool {
    match change {
        MemberChange::Role(target, role) => listed_on(members, project_id, target) && (role
            != ProjectRole::Admin ==> !spec_would_drop_last_admin(
            members,
            tenant,
            tenant_members,
            tenant_id,
            project_id,
            target,
        )),
        MemberChange::Remove(target) => listed_on(members, project_id, target) && !spec_would_drop_last_admin(
            members,
            tenant,
            tenant_members,
            tenant_id,
            project_id,
            target,
        ),
    }
}

/// The rows after a change that goes through.
pub open spec fn applied(members: Seq<ProjectMember>, project_id: u128, change: MemberChange) -> Seq<
    ProjectMember,
> {
    match change {
        MemberChange::Role(target, role) => with_role(members, project_id, target, role),
        MemberChange::Remove(target) => without_member(members, project_id, target),
    }
}

/// The rows after running `changes` one after another, each checked against
/// the rows its predecessors left (the handlers run one at a time per
/// project); a refused change leaves the rows as they were.
pub open spec fn run_changes(
    members: Seq<ProjectMember>,
    tenant: Option<Tenant>,
    tenant_members: Seq<TenantMember>,
    tenant_id: u128,
    project_id: u128,
    changes: Seq<MemberChange>,
) -> Seq<ProjectMember>
    decreases changes.len(),
{
    if changes.len() == 0 {
        members
    } else {
        let before = run_changes(members, tenant, tenant_members, tenant_id, project_id, changes.drop_last());
        if change_allowed(before, tenant, tenant_members, tenant_id, project_id, changes.last()) {
            applied(before, project_id, changes.last())
        } else {
            before
        }
    }
}

/// Whether some admin of the project still belongs to the tenant.
pub open spec fn has_active_admin(
    members: Seq<ProjectMember>,
    tenant: Option<Tenant>,
    tenant_members: Seq<TenantMember>,
    tenant_id: u128,
    project_id: u128,
) -> bool {
    exists|u: u128|
        is_project_admin(members, project_id, u) && active_in_tenant(tenant, tenant_members, tenant_id, u)
}

proof fn lemma_without_member_keeps(members: Seq<ProjectMember>, project_id: u128, target: u128, k: int)
    requires
        0 <= k < members.len(),
        !(members[k].project_id == project_id && members[k].user_id == target),
    ensures
        without_member(members, project_id, target).contains(members[k]),
    decreases members.len(),
{
    let rest = without_member(members.drop_last(), project_id, target);
    if k == members.len() - 1 {
        assert(rest.push(members.last())[rest.len() as int] == members[k]);
    } else {
        assert(members.drop_last()[k] == members[k]);
        lemma_without_member_keeps(members.drop_last(), project_id, target, k);
        let j = choose|j: int| 0 <= j < rest.len() && rest[j] == members[k];
        if !(members.last().project_id == project_id && members.last().user_id == target) {
            assert(rest.push(members.last())[j] == members[k]);
        }
    }
}

/// One change that goes through keeps an admin still in the tenant.
proof fn lemma_change_keeps_an_admin(
    members: Seq<ProjectMember>,
    tenant: Option<Tenant>,
    tenant_members: Seq<TenantMember>,
    tenant_id: u128,
    project_id: u128,
    change: MemberChange,
)
    requires
        has_active_admin(members, tenant, tenant_members, tenant_id, project_id),
        change_allowed(members, tenant, tenant_members, tenant_id, project_id, change),
    ensures
        has_active_admin(applied(members, project_id, change), tenant, tenant_members, tenant_id, project_id),
{
    let admin = choose|u: u128|
        is_project_admin(members, project_id, u) && active_in_tenant(tenant, tenant_members, tenant_id, u);
    let after = applied(members, project_id, change);
    match change {
        MemberChange::Role(target, role) => {
            if role == ProjectRole::Admin && admin == target {
                let k = choose|k: int|
                    0 <= k < members.len() && members[k].project_id == project_id && members[k].user_id == admin
                        && members[k].role == ProjectRole::Admin;
                assert(after[k].role == ProjectRole::Admin && after[k].user_id == admin);
                assert(is_project_admin(after, project_id, admin));
            } else {
                let u = if admin != target {
                    admin
                } else {
                    lemma_guard_keeps_an_active_admin(
                        members,
                        tenant,
                        tenant_members,
                        tenant_id,
                        project_id,
                        target,
                        admin,
                    );
                    choose|u: u128|
                        u != target && is_project_admin(members, project_id, u) && active_in_tenant(
                            tenant,
                            tenant_members,
                            tenant_id,
                            u,
                        )
                };
                let k = choose|k: int|
                    0 <= k < members.len() && members[k].project_id == project_id && members[k].user_id == u
                        && members[k].role == ProjectRole::Admin;
                assert(after[k] == members[k]);
                assert(is_project_admin(after, project_id, u));
            }
        },
        MemberChange::Remove(target) => {
            let u = if admin != target {
                admin
            } else {
                lemma_guard_keeps_an_active_admin(
                    members,
                    tenant,
                    tenant_members,
                    tenant_id,
                    project_id,
                    target,
                    admin,
                );
                choose|u: u128|
                    u != target && is_project_admin(members, project_id, u) && active_in_tenant(
                        tenant,
                        tenant_members,
                        tenant_id,
                        u,
                    )
            };
            let k = choose|k: int|
                0 <= k < members.len() && members[k].project_id == project_id && members[k].user_id == u
                    && members[k].role == ProjectRole::Admin;
            lemma_without_member_keeps(members, project_id, target, k);
            let j = choose|j: int| 0 <= j < after.len() && after[j] == members[k];
            assert(is_project_admin(after, project_id, u));
        },
    }
}

/// Demotions and removals that run one after another, each checked against
/// the rows left by those before it, never take a project from having an admin
/// still in the tenant to having none: of two concurrent demotions of the
/// last two admins, the one that runs second is refused.
pub proof fn lemma_serialised_changes_keep_an_admin(
    members: Seq<ProjectMember>,
    tenant: Option<Tenant>,
    tenant_members: Seq<TenantMember>,
    tenant_id: u128,
    project_id: u128,
    changes: Seq<MemberChange>,
)
    requires
        has_active_admin(members, tenant, tenant_members, tenant_id, project_id),
    ensures
        has_active_admin(
            run_changes(members, tenant, tenant_members, tenant_id, project_id, changes),
            tenant,
            tenant_members,
            tenant_id,
            project_id,
        ),
    decreases changes.len(),
{
    if changes.len() > 0 {
        lemma_serialised_changes_keep_an_admin(
            members,
            tenant,
            tenant_members,
            tenant_id,
            project_id,
            changes.drop_last(),
        );
        let before = run_changes(members, tenant, tenant_members, tenant_id, project_id, changes.drop_last());
        if change_allowed(before, tenant, tenant_members, tenant_id, project_id, changes.last()) {
            lemma_change_keeps_an_admin(before, tenant, tenant_members, tenant_id, project_id, changes.last());
        }
    }
}

/// Only an admin still in the tenant can be the last one: when the guard
/// refuses to let `target` go, `target` is the tenant's owner or has a row in
/// its members. An admin who has left the tenant is never held by the guard,
/// so removing or demoting them is never refused with 409.
pub proof fn lemma_departed_admins_are_never_held(
    members: Seq<ProjectMember>,
    tenant: Option<Tenant>,
    tenant_members: Seq<TenantMember>,
    tenant_id: u128,
    project_id: u128,
    target: u128,
)
    ensures
        spec_would_drop_last_admin(members, tenant, tenant_members, tenant_id, project_id, target) ==> ((
        tenant matches Some(t) && t.owner_id == target) || exists|k: int|
            0 <= k < tenant_members.len() && tenant_members[k].tenant_id == tenant_id && tenant_members[k].user_id
                == target),
        !(tenant matches Some(t) && t.owner_id == target) && (forall|k: int|
            0 <= k < tenant_members.len() ==> !(tenant_members[k].tenant_id == tenant_id
                && tenant_members[k].user_id == target)) ==> !spec_would_drop_last_admin(
            members,
            tenant,
            tenant_members,
            tenant_id,
            project_id,
            target,
        ),
{
}

} // verus!
