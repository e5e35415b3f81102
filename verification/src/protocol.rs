//! The rules of the sample staking protocol, over plain values.

use vstd::prelude::*;

verus! {

/// Whether a project still takes part in the protocol.
#[derive(Clone, Copy, Debug, PartialEq, Eq, Structural)]
pub enum ProjectStatus {
    Normal,
    Destroyed,
}

/// Why the protocol refused a request.
#[derive(Clone, Copy, Debug, PartialEq, Eq, Structural)]
pub enum ErrorCode {
    /// The signer is not the owner of the project.
    Unauthorized,
}

/// The text attached to [`ErrorCode::Unauthorized`].
pub open spec fn unauthorized_text() -> Seq<char> {
    "You are not authorized to perform this action."@
}

impl ErrorCode {
    /// The text attached to the error.
    pub fn message(&self) -> (res: String)
        ensures
            res@ == unauthorized_text(),
            res@.len() > 0,
    {
        proof {
            reveal_strlit("You are not authorized to perform this action.");
        }
        "You are not authorized to perform this action.".to_owned()
    }
}

/// The stored record of one project.
#[derive(Debug)]
pub struct ProjectInfo {
    pub ipfs_hash: String,
    pub reward: u64,
    pub base_reward: u64,
    pub is_implicit: bool,
    pub owner: [u8; 32],
    pub status: ProjectStatus,
    pub project_name: String,
    pub reward_splitting_spec: String,
}

/// Compares two addresses byte by byte.
pub fn same_key(a: &[u8; 32], b: &[u8; 32]) -> (res: bool)
    ensures
        res == (a@ == b@),
{
    let mut i: usize = 0;
    while i < 32
        invariant
            i <= 32,
            forall|j: int| 0 <= j < i ==> a@[j] == b@[j],
        decreases 32 - i,
    {
        if a[i] != b[i] {
            return false;
        }
        i += 1;
    }
    assert(a@ =~= b@);
    true
}

/// The accounts of [`add_project`].
#[derive(Debug)]
pub struct AddProject {
    /// The record of the project, created by the instruction.
    pub project_info: ProjectInfo,
    /// The signer, who pays for the record.
    pub user: [u8; 32],
    pub system_program: [u8; 32],
}

/// The accounts of [`update_reward_spec`].
#[derive(Debug)]
pub struct UpdateRewardSpec {
    /// The record of the project.
    pub project_info: ProjectInfo,
    /// The signer.
    pub owner: [u8; 32],
}

/// Registers a project. The accounts are left as they are.
pub fn add_project(
    ctx: &mut AddProject,
    ipfs_hash: String,
    initial_deposit: u64,
    is_implicit: bool,
    initial_testcases: String,
    reward_splitting_spec: String,
    project_name: String,
) -> (res: Result<(), ErrorCode>)
    ensures
        res is Ok,
        *final(ctx) == *old(ctx),
{
    Ok(())
}

/// Replaces the reward-splitting rule of a project. Only the owner of the
/// project may do so: for any other signer the accounts stay as they are and
/// the request fails with [`ErrorCode::Unauthorized`].
pub fn update_reward_spec(ctx: &mut UpdateRewardSpec, reward_splitting_spec: String) -> (res:
    Result<(), ErrorCode>)
    ensures
        old(ctx).project_info.owner@ == old(ctx).owner@ ==> res is Ok && *final(ctx)
            == (UpdateRewardSpec {
            project_info: ProjectInfo { reward_splitting_spec, ..old(ctx).project_info },
            ..*old(ctx)
        }),
        old(ctx).project_info.owner@ != old(ctx).owner@ ==> res == Err::<(), ErrorCode>(
            ErrorCode::Unauthorized,
        ) && *final(ctx) == *old(ctx),
{
    if !same_key(&ctx.project_info.owner, &ctx.owner) {
        return Err(ErrorCode::Unauthorized);
    }
    ctx.project_info.reward_splitting_spec = reward_splitting_spec;
    Ok(())
}

} // verus!
