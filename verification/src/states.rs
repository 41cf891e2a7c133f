//! The per-conversation data model: the two-stage dialogue and the active
//! session state, with its invariants.

use vstd::prelude::*;

verus! {

/// The most subscriptions one conversation may hold.
pub const MAX_SUBSCRIPTIONS: usize = 100;

/// The default sweep interval, in seconds.
pub const DEFAULT_REFRESH_RATE_SECS: u64 = 900;

/// A conversation that has not sent a message yet.
#[derive(Debug)]
pub struct StartState;

/// An active subscription session, one per conversation.
#[derive(Debug)]
pub struct RunState {
    /// The user who created the session.
    pub owner: i32,
    /// The conversation that notifications are delivered to.
    pub chat_id: i64,
    /// The subscribed feed URLs, in subscription order.
    pub subscriptions: Vec<String>,
    /// Advisory per-conversation sweep interval, in seconds; the scheduler
    /// currently uses one global interval.
    pub refresh_rate_secs: u64,
    /// Message ids the user flagged to keep.
    pub saved: Vec<u64>,
    /// The highest notification id issued to this conversation, if any.
    pub last_msg_id: Option<u64>,
    /// Epoch milliseconds of the last successful sweep that touched this
    /// conversation, if any.
    pub last_refresh: Option<i64>,
}

/// A conversation's lifecycle stage.
#[derive(Debug)]
pub enum Dialogue {
    Start(StartState),
    Run(RunState),
}

/// The mathematical value of a `RunState`.
pub ghost struct RunStateV {
    pub owner: int,
    pub chat_id: int,
    pub subscriptions: Seq<Seq<char>>,
    pub refresh_rate_secs: int,
    pub saved: Seq<u64>,
    pub last_msg_id: Option<u64>,
    pub last_refresh: Option<i64>,
}

/// The mathematical value of a `Dialogue`.
pub ghost enum DialogueV {
    Start,
    Run(RunStateV),
}

impl View for RunState {
    type V = RunStateV;

    open spec fn view(&self) -> RunStateV {
        RunStateV {
            owner: self.owner as int,
            chat_id: self.chat_id as int,
            subscriptions: self.subscriptions.deep_view(),
            refresh_rate_secs: self.refresh_rate_secs as int,
            saved: self.saved@,
            last_msg_id: self.last_msg_id,
            last_refresh: self.last_refresh,
        }
    }
}

impl View for Dialogue {
    type V = DialogueV;

    open spec fn view(&self) -> DialogueV {
        match self {
            Dialogue::Start(_) => DialogueV::Start,
            Dialogue::Run(s) => DialogueV::Run(s@),
        }
    }
}

/// No id may be saved unless it is strictly below the highest issued
/// notification id; an absent `last_msg_id` admits none.
pub open spec fn saved_id_ok(last_msg_id: Option<u64>, id: u64) -> bool {
    match last_msg_id {
        Some(m) => (id as int) < m as int,
        None => false,
    }
}

/// The session invariant: no duplicate subscriptions, the subscription list
/// within its capacity, and every saved id below the issued-id watermark.
pub open spec fn run_state_wf(s: RunStateV) -> bool {
    &&& s.subscriptions.no_duplicates()
    &&& s.subscriptions.len() <= MAX_SUBSCRIPTIONS
    &&& forall|i: int| 0 <= i < s.saved.len() ==> saved_id_ok(s.last_msg_id, #[trigger] s.saved[i])
}

pub open spec fn dialogue_wf(d: DialogueV) -> bool {
    match d {
        DialogueV::Start => true,
        DialogueV::Run(s) => run_state_wf(s),
    }
}

/// The session a conversation starts with: owned by the triggering user,
/// delivering to the triggering conversation, with nothing subscribed,
/// nothing saved and nothing issued yet.
pub open spec fn init_run_state(owner: int, chat_id: int) -> RunStateV {
    RunStateV {
        owner: owner,
        chat_id: chat_id,
        subscriptions: Seq::empty(),
        refresh_rate_secs: DEFAULT_REFRESH_RATE_SECS as int,
        saved: Seq::empty(),
        last_msg_id: None,
        last_refresh: None,
    }
}

impl RunState {
    /// A fresh session for the given user and conversation.
    pub fn new(owner: i32, chat_id: i64) -> (r: RunState)
        ensures
            r@ == init_run_state(owner as int, chat_id as int),
            run_state_wf(r@),
    {
        let r = RunState {
            owner,
            chat_id,
            subscriptions: Vec::new(),
            refresh_rate_secs: DEFAULT_REFRESH_RATE_SECS,
            saved: Vec::new(),
            last_msg_id: None,
            last_refresh: None,
        };
        proof {
            assert(r@.subscriptions =~= Seq::<Seq<char>>::empty());
            assert(r@.saved =~= Seq::<u64>::empty());
            assert(r@ == init_run_state(owner as int, chat_id as int));
        }
        r
    }
}

impl Default for Dialogue {
    /// A conversation never seen before is at its start stage.
    fn default() -> (r: Dialogue)
        ensures
            r@ == DialogueV::Start,
    {
        Dialogue::Start(StartState)
    }
}

} // verus!
