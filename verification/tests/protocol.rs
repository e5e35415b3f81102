use gecko_client::protocol::{
    add_project, same_key, update_reward_spec, AddProject, ErrorCode, ProjectInfo,
    ProjectStatus, UpdateRewardSpec,
};

fn sample_project(owner: [u8; 32]) -> ProjectInfo {
    ProjectInfo {
        ipfs_hash: "Qm123".to_string(),
        reward: 10,
        base_reward: 5,
        is_implicit: false,
        owner,
        status: ProjectStatus::Normal,
        project_name: "demo".to_string(),
        reward_splitting_spec: "equal".to_string(),
    }
}

#[test]
fn owner_may_update_reward_spec() {
    let owner = [4u8; 32];
    let mut ctx = UpdateRewardSpec { project_info: sample_project(owner), owner };
    let outcome = update_reward_spec(&mut ctx, "weighted".to_string());
    assert_eq!(outcome, Ok(()));
    assert_eq!(ctx.owner, owner);
    let project = ctx.project_info;
    assert_eq!(project.reward_splitting_spec, "weighted");
    assert_eq!(project.ipfs_hash, "Qm123");
    assert_eq!(project.reward, 10);
    assert_eq!(project.base_reward, 5);
    assert!(!project.is_implicit);
    assert_eq!(project.owner, owner);
    assert_eq!(project.status, ProjectStatus::Normal);
    assert_eq!(project.project_name, "demo");
}

#[test]
fn stranger_may_not_update_reward_spec() {
    let owner = [4u8; 32];
    let mut stranger = [4u8; 32];
    stranger[31] = 5;
    let mut ctx = UpdateRewardSpec { project_info: sample_project(owner), owner: stranger };
    let outcome = update_reward_spec(&mut ctx, "weighted".to_string());
    assert_eq!(outcome, Err(ErrorCode::Unauthorized));
    assert_eq!(ctx.project_info.reward_splitting_spec, "equal");
    assert_eq!(ctx.project_info.owner, owner);
    assert_eq!(ctx.owner, stranger);
}

#[test]
fn unauthorized_message_is_the_declared_text() {
    assert_eq!(
        ErrorCode::Unauthorized.message(),
        "You are not authorized to perform this action."
    );
}

#[test]
fn add_project_succeeds_and_leaves_the_record() {
    let owner = [1u8; 32];
    let mut ctx =
        AddProject { project_info: sample_project(owner), user: owner, system_program: [0u8; 32] };
    let outcome = add_project(
        &mut ctx,
        "QmNew".to_string(),
        100,
        true,
        "cases".to_string(),
        "spec".to_string(),
        "other".to_string(),
    );
    assert_eq!(outcome, Ok(()));
    assert_eq!(ctx.user, owner);
    assert_eq!(ctx.system_program, [0u8; 32]);
    let project = ctx.project_info;
    assert_eq!(project.ipfs_hash, "Qm123");
    assert_eq!(project.reward_splitting_spec, "equal");
    assert_eq!(project.project_name, "demo");
    assert!(!project.is_implicit);
}

#[test]
fn same_key_compares_every_byte() {
    let a = [9u8; 32];
    let mut b = [9u8; 32];
    assert!(same_key(&a, &b));
    b[0] = 8;
    assert!(!same_key(&a, &b));
    b[0] = 9;
    b[17] = 0;
    assert!(!same_key(&a, &b));
}
