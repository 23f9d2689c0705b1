//! The records that the BBS daemon serves, as this site reads them.
use vstd::prelude::*;
use crate::time::Timestamp;

verus! {

/// A message board.
#[derive(Debug)]
pub struct Board {
    /// The short name used in URLs.
    pub slug: String,
    pub name: String,
    pub description: String,
    /// The Unix group whose members may start threads, if starting threads
    /// is restricted.
    pub write_group: Option<String>,
}

/// The state of a proposal, as the site shows it.
#[derive(Debug)]
pub struct ProposalState {
    /// The state's name as the BBS spells it.
    pub label: String,
    /// Whether the proposal is open for votes in this state.
    pub voting: bool,
}

/// One change of a proposal's state.
#[derive(Debug)]
pub struct ProposalEvent {
    /// The user who caused the change, if a user did.
    pub actor: Option<String>,
    pub actor_uid: Option<u32>,
    pub from_state: Option<ProposalState>,
    pub to_state: ProposalState,
    pub reason: Option<String>,
    pub created_at: Timestamp,
}

/// A proposal attached to a thread.
#[derive(Debug)]
pub struct Proposal {
    pub state: ProposalState,
    pub closes_at: Timestamp,
    pub closed_at: Option<Timestamp>,
    pub events: Vec<ProposalEvent>,
}

/// One answer of a poll and the votes it received.
#[derive(Debug)]
pub struct PollOption {
    pub label: String,
    pub votes: u32,
}

/// A poll attached to a thread.
#[derive(Debug)]
pub struct Poll {
    pub options: Vec<PollOption>,
    pub total_votes: u32,
}

/// A reply in a thread.
#[derive(Debug)]
pub struct Reply {
    pub id: i64,
    pub author: String,
    pub body: String,
    pub created_at: Timestamp,
    pub updated_at: Timestamp,
}

/// A thread with its replies.
#[derive(Debug)]
pub struct Post {
    pub id: i64,
    pub board: Board,
    pub author: String,
    pub title: String,
    pub body: String,
    pub locked: bool,
    pub replies: Vec<Reply>,
    pub poll: Option<Poll>,
    pub proposal: Option<Proposal>,
    pub created_at: Timestamp,
    pub updated_at: Timestamp,
}

/// A thread as a board's listing shows it.
#[derive(Debug)]
pub struct PostSummary {
    pub id: i64,
    pub title: String,
    pub author: String,
    pub is_poll: bool,
    pub proposal_state: Option<ProposalState>,
    pub locked: bool,
    pub reply_count: u64,
    pub updated_at: Timestamp,
}

} // verus!
