use koyori_task::access::{
    admit_project_member, change_member_role, check_removal, check_role_change, is_tenant_member,
    is_tenant_owner, project_accessible_user_ids, project_is_open_or_member, project_role,
    remove_project_member, require_member_or_owner, require_project_admin, visible_project_ids,
    would_drop_last_admin, Project, ProjectMember, ProjectRole, Tenant, TenantMember, TenantMemberResponse,
    TenantRole,
};
use koyori_task::errors::AppError;

const TENANT: u128 = 1;
const OWNER: u128 = 100;
const ALICE: u128 = 101;
const BOB: u128 = 102;
const CAROL: u128 = 103;
const OUTSIDER: u128 = 200;
const OPEN: u128 = 10;
const CLOSED: u128 = 11;

fn project(id: u128) -> Project {
    Project { id, tenant_id: TENANT, is_personal: false, personal_owner_id: None }
}

fn tenant() -> Tenant {
    Tenant { id: TENANT, owner_id: OWNER }
}

fn tenant_members() -> Vec<TenantMember> {
    vec![
        TenantMember { id: 1, tenant_id: TENANT, user_id: ALICE, role: TenantRole::Admin },
        TenantMember { id: 2, tenant_id: TENANT, user_id: BOB, role: TenantRole::Member },
        TenantMember { id: 3, tenant_id: TENANT, user_id: CAROL, role: TenantRole::Viewer },
    ]
}

fn project_members() -> Vec<ProjectMember> {
    vec![
        ProjectMember { id: 1, project_id: CLOSED, user_id: ALICE, role: ProjectRole::Admin },
        ProjectMember { id: 2, project_id: CLOSED, user_id: BOB, role: ProjectRole::Member },
    ]
}

#[test]
fn tenant_membership_and_ownership() {
    assert!(is_tenant_member(&tenant_members(), TENANT, BOB));
    assert!(!is_tenant_member(&tenant_members(), TENANT, OWNER));
    assert!(!is_tenant_member(&tenant_members(), 2, BOB));
    assert!(is_tenant_owner(Some(&tenant()), OWNER));
    assert!(!is_tenant_owner(Some(&tenant()), ALICE));
    assert!(!is_tenant_owner(None, OWNER));
}

#[test]
fn a_project_without_members_is_open_to_the_tenant() {
    let members = project_members();
    assert!(project_is_open_or_member(&members, &project(OPEN), CAROL));
    assert!(project_is_open_or_member(&members, &project(CLOSED), BOB));
    assert!(!project_is_open_or_member(&members, &project(CLOSED), CAROL));
}

#[test]
fn tenant_members_gate_tenant_and_project_access() {
    let tm = tenant_members();
    let pm = project_members();
    assert_eq!(require_member_or_owner(Some(tenant()), &tm, &pm, TENANT, &project(CLOSED), OWNER), Ok(()));
    assert_eq!(require_member_or_owner(Some(tenant()), &tm, &pm, TENANT, &project(CLOSED), ALICE), Ok(()));
    assert_eq!(require_member_or_owner(Some(tenant()), &tm, &pm, TENANT, &project(CLOSED), CAROL), Err(AppError::Forbidden));
    assert_eq!(require_member_or_owner(Some(tenant()), &tm, &pm, TENANT, &project(OPEN), CAROL), Ok(()));
    assert_eq!(require_member_or_owner(Some(tenant()), &tm, &pm, TENANT, &project(OPEN), OUTSIDER), Err(AppError::Forbidden));
}

#[test]
fn visible_projects_are_listed_once_in_order() {
    let ids = visible_project_ids(
        vec![project(CLOSED), project(OPEN), project(CLOSED), project(OPEN)],
        &project_members(),
        CAROL,
    );
    assert_eq!(ids, vec![OPEN]);
    let ids = visible_project_ids(vec![project(CLOSED), project(OPEN), project(CLOSED)], &project_members(), BOB);
    assert_eq!(ids, vec![CLOSED, OPEN]);
}

#[test]
fn notification_recipients_follow_the_project_rule() {
    let mut open = project_accessible_user_ids(
        Some(Project { id: OPEN, tenant_id: TENANT, is_personal: false, personal_owner_id: None }),
        &project_members(),
        &tenant_members(),
    );
    open.sort();
    assert_eq!(open, vec![ALICE, BOB, CAROL]);
    let mut closed = project_accessible_user_ids(
        Some(Project { id: CLOSED, tenant_id: TENANT, is_personal: false, personal_owner_id: None }),
        &project_members(),
        &tenant_members(),
    );
    closed.sort();
    assert_eq!(closed, vec![ALICE, BOB]);
    assert!(project_accessible_user_ids(None, &project_members(), &tenant_members()).is_empty());
}

#[test]
fn only_owner_and_project_admin_can_manage_members() {
    let pm = project_members();
    assert_eq!(require_project_admin(false, Some(tenant()), &pm, CLOSED, OWNER), Err(AppError::NotFound));
    assert_eq!(require_project_admin(true, Some(tenant()), &pm, CLOSED, OWNER), Ok(()));
    assert_eq!(require_project_admin(true, Some(tenant()), &pm, CLOSED, ALICE), Ok(()));
    assert_eq!(require_project_admin(true, Some(tenant()), &pm, CLOSED, BOB), Err(AppError::Forbidden));
    assert_eq!(project_role(&pm, CLOSED, BOB), Some(ProjectRole::Member));
    assert_eq!(project_role(&pm, OPEN, BOB), None);
}

#[test]
fn the_last_admin_still_in_the_tenant_cannot_leave() {
    let pm = project_members();
    let tm = tenant_members();
    assert!(would_drop_last_admin(&pm, Some(tenant()), &tm, TENANT, CLOSED, ALICE));
    assert!(!would_drop_last_admin(&pm, Some(tenant()), &tm, TENANT, CLOSED, BOB));
    assert_eq!(check_removal(&pm, Some(tenant()), &tm, TENANT, CLOSED, ALICE), Err(AppError::Conflict));
    assert_eq!(
        check_role_change(ProjectRole::Member, &pm, Some(tenant()), &tm, TENANT, CLOSED, ALICE),
        Err(AppError::Conflict)
    );
    assert_eq!(check_role_change(ProjectRole::Admin, &pm, Some(tenant()), &tm, TENANT, CLOSED, ALICE), Ok(()));
    assert_eq!(check_removal(&pm, Some(tenant()), &tm, TENANT, CLOSED, BOB), Ok(()));
}

#[test]
fn an_admin_who_left_the_tenant_does_not_count() {
    let mut pm = project_members();
    pm.push(ProjectMember { id: 3, project_id: CLOSED, user_id: OUTSIDER, role: ProjectRole::Admin });
    let tm = tenant_members();
    assert!(would_drop_last_admin(&pm, Some(tenant()), &tm, TENANT, CLOSED, ALICE));
    pm.push(ProjectMember { id: 4, project_id: CLOSED, user_id: OWNER, role: ProjectRole::Admin });
    assert!(!would_drop_last_admin(&pm, Some(tenant()), &tm, TENANT, CLOSED, ALICE));
}

#[test]
fn adding_a_project_member_checks_existence_tenant_and_duplicates() {
    let tm = tenant_members();
    let pm = project_members();
    assert_eq!(admit_project_member(false, Some(tenant()), &tm, &pm, TENANT, CLOSED, CAROL), Err(AppError::NotFound));
    assert_eq!(admit_project_member(true, Some(tenant()), &tm, &pm, TENANT, CLOSED, OUTSIDER), Err(AppError::BadRequest));
    assert_eq!(admit_project_member(true, Some(tenant()), &tm, &pm, TENANT, CLOSED, BOB), Err(AppError::Conflict));
    assert_eq!(admit_project_member(true, Some(tenant()), &tm, &pm, TENANT, CLOSED, CAROL), Ok(()));
    assert_eq!(admit_project_member(true, Some(tenant()), &tm, &pm, TENANT, CLOSED, OWNER), Ok(()));
}

#[test]
fn member_responses_copy_the_row() {
    let row = TenantMember { id: 9, tenant_id: TENANT, user_id: BOB, role: TenantRole::Viewer };
    let r = TenantMemberResponse::from_member(row);
    assert_eq!((r.id, r.tenant_id, r.user_id, r.role), (9, TENANT, BOB, TenantRole::Viewer));
}

#[test]
fn users_who_left_the_tenant_are_not_notified() {
    let mut pm = project_members();
    pm.push(ProjectMember { id: 3, project_id: CLOSED, user_id: OUTSIDER, role: ProjectRole::Member });
    let mut closed = project_accessible_user_ids(
        Some(Project { id: CLOSED, tenant_id: TENANT, is_personal: false, personal_owner_id: None }),
        &pm,
        &tenant_members(),
    );
    closed.sort();
    assert_eq!(closed, vec![ALICE, BOB]);
}

#[test]
fn a_personal_project_notifies_only_its_user() {
    let inbox = Project { id: 12, tenant_id: TENANT, is_personal: true, personal_owner_id: Some(CAROL) };
    assert_eq!(project_accessible_user_ids(Some(inbox), &project_members(), &tenant_members()), vec![CAROL]);
    let orphan = Project { id: 13, tenant_id: TENANT, is_personal: true, personal_owner_id: None };
    assert!(project_accessible_user_ids(Some(orphan), &project_members(), &tenant_members()).is_empty());
}

#[test]
fn a_personal_project_stays_closed_without_member_rows() {
    let inbox = Project { id: 12, tenant_id: TENANT, is_personal: true, personal_owner_id: Some(CAROL) };
    let no_rows: Vec<ProjectMember> = Vec::new();
    assert!(project_is_open_or_member(&no_rows, &inbox, CAROL));
    assert!(!project_is_open_or_member(&no_rows, &inbox, BOB));
    let tm = tenant_members();
    assert_eq!(require_member_or_owner(Some(tenant()), &tm, &no_rows, TENANT, &inbox, BOB), Err(AppError::Forbidden));
    assert_eq!(require_member_or_owner(Some(tenant()), &tm, &no_rows, TENANT, &inbox, CAROL), Ok(()));
    assert_eq!(require_member_or_owner(Some(tenant()), &tm, &no_rows, TENANT, &inbox, OWNER), Ok(()));
    let shared = vec![ProjectMember { id: 9, project_id: 12, user_id: BOB, role: ProjectRole::Member }];
    assert!(project_is_open_or_member(&shared, &inbox, BOB));
    assert_eq!(visible_project_ids(vec![inbox, project(OPEN)], &no_rows, BOB), vec![OPEN]);
}

#[test]
fn concurrent_demotions_cannot_drop_the_last_admin() {
    let tm = tenant_members();
    let mut rows = project_members();
    rows[1].role = ProjectRole::Admin;
    // The handlers run one at a time per project: the second sees the first's rows.
    let after_first =
        change_member_role(&rows, Some(tenant()), &tm, TENANT, CLOSED, ALICE, ProjectRole::Viewer).unwrap();
    assert_eq!(project_role(&after_first, CLOSED, ALICE), Some(ProjectRole::Viewer));
    assert_eq!(
        change_member_role(&after_first, Some(tenant()), &tm, TENANT, CLOSED, BOB, ProjectRole::Viewer),
        Err(AppError::Conflict)
    );
    assert_eq!(
        remove_project_member(&after_first, Some(tenant()), &tm, TENANT, CLOSED, BOB),
        Err(AppError::Conflict)
    );
    assert_eq!(project_role(&after_first, CLOSED, BOB), Some(ProjectRole::Admin));
}

#[test]
fn member_changes_need_a_listed_member() {
    let tm = tenant_members();
    let rows = project_members();
    assert_eq!(
        change_member_role(&rows, Some(tenant()), &tm, TENANT, CLOSED, CAROL, ProjectRole::Admin),
        Err(AppError::NotFound)
    );
    assert_eq!(remove_project_member(&rows, Some(tenant()), &tm, TENANT, CLOSED, CAROL), Err(AppError::NotFound));
    let promoted = change_member_role(&rows, Some(tenant()), &tm, TENANT, CLOSED, BOB, ProjectRole::Admin).unwrap();
    assert_eq!(promoted.len(), rows.len());
    let without_bob = remove_project_member(&promoted, Some(tenant()), &tm, TENANT, CLOSED, BOB).unwrap();
    assert_eq!(without_bob, vec![rows[0]]);
}
