//! Request orchestrator model: owns the conversation history and the single
//! in-flight transfer, and decides how each event moves the session on. The
//! transport that performs transfers acts on the identifiers this model hands
//! out and feeds the outcomes back in.

use vstd::prelude::*;

verus! {

use crate::llm::Role;

/// What the orchestrator sends to the terminal task.
pub enum RequestTaskMessage {
    ReceivedPiece(String),
    Done,
}

/// The two polling modes of the orchestrator's loop: drive the transfer with
/// a bounded wait, or block for the next prompt.
#[derive(PartialEq, Eq, Structural, Clone, Copy, Debug)]
pub enum PollingMode {
    AwaitRequestUpdate,
    AwaitPrompt,
}

/// The orchestrator's state. At most one transfer is in flight at any time;
/// transfers are identified by the order they were started in.
pub struct RequestTask {
    /// The transfer currently registered with the multiplexer, if any.
    pub active_transfer: Option<u64>,
    /// The identifier the next transfer will get; identifiers are never
    /// reused.
    pub next_transfer_id: u64,
    /// The conversation so far, oldest entry first.
    pub history: Vec<(Role, String)>,
    pub polling_mode: PollingMode,
    /// Cleared when the session is told to end.
    pub running: bool,
}

/// Transfer identifiers stay in bounds: an active transfer was started
/// earlier.
pub open spec fn transfer_wf(s: &RequestTask) -> bool {
    match s.active_transfer {
        Option::Some(id) => id < s.next_transfer_id,
        Option::None => true,
    }
}

/// How any single orchestrator step may move the state: identifiers only
/// grow, and an active transfer is either the one already in flight or a
/// fresh one.
pub open spec fn advances(pre: &RequestTask, post: &RequestTask) -> bool {
    &&& post.next_transfer_id >= pre.next_transfer_id
    &&& match post.active_transfer {
        Option::Some(id) => id < post.next_transfer_id && (pre.active_transfer
            == Option::Some(id) || id >= pre.next_transfer_id),
        Option::None => true,
    }
}

impl RequestTask {
    pub fn new() -> (r: Self)
        ensures
            r.active_transfer is None,
            r.next_transfer_id == 0,
            r.history@ == Seq::<(Role, String)>::empty(),
            r.polling_mode == PollingMode::AwaitPrompt,
            r.running,
            transfer_wf(&r),
    {
        let r = Self {
            active_transfer: None,
            next_transfer_id: 0,
            history: Vec::new(),
            polling_mode: PollingMode::AwaitPrompt,
            running: true,
        };
        proof {
            assert(r.history@ =~= Seq::<(Role, String)>::empty());
        }
        r
    }

    /// Removes and discards the current transfer unconditionally; a no-op
    /// when none is in flight.
    pub fn stop_ongoing(&mut self)
        ensures
            final(self).active_transfer is None,
            final(self).next_transfer_id == old(self).next_transfer_id,
            final(self).history == old(self).history,
            final(self).polling_mode == old(self).polling_mode,
            final(self).running == old(self).running,
            transfer_wf(final(self)),
            advances(old(self), final(self)),
    {
        self.active_transfer = None;
    }

    /// Registers a fresh transfer with the multiplexer and returns its
    /// identifier; any earlier transfer must already be gone or is simply
    /// superseded.
    pub fn start_transfer(&mut self) -> (id: u64)
        requires
            old(self).next_transfer_id < u64::MAX,
        ensures
            id == old(self).next_transfer_id,
            final(self).active_transfer == Option::Some(id),
            final(self).next_transfer_id == old(self).next_transfer_id + 1,
            final(self).history == old(self).history,
            final(self).polling_mode == PollingMode::AwaitRequestUpdate,
            final(self).running == old(self).running,
            transfer_wf(final(self)),
            advances(old(self), final(self)),
    {
        let id = self.next_transfer_id;
        self.active_transfer = Some(id);
        self.next_transfer_id = id + 1;
        self.polling_mode = PollingMode::AwaitRequestUpdate;
        id
    }

    /// Opens the conversation: the system prompt and the initial user
    /// prompt enter the history and the first transfer starts.
    pub fn begin_conversation(&mut self, sysprompt: String, initial_prompt: String) -> (id: u64)
        requires
            old(self).next_transfer_id < u64::MAX,
        ensures
            final(self).history@ == old(self).history@ + seq![
                (Role::Developer, sysprompt),
                (Role::User, initial_prompt),
            ],
            id == old(self).next_transfer_id,
            final(self).active_transfer == Option::Some(id),
            final(self).next_transfer_id == old(self).next_transfer_id + 1,
            final(self).polling_mode == PollingMode::AwaitRequestUpdate,
            final(self).running == old(self).running,
            transfer_wf(final(self)),
            advances(old(self), final(self)),
    {
        let ghost h0 = self.history@;
        self.history.push((Role::Developer, sysprompt));
        self.history.push((Role::User, initial_prompt));
        proof {
            assert(self.history@ =~= h0 + seq![
                (Role::Developer, self.history@[h0.len() as int].1),
                (Role::User, self.history@[h0.len() as int + 1].1),
            ]);
        }
        self.start_transfer()
    }

    /// A newly submitted prompt supersedes whatever is in flight: the old
    /// transfer is cancelled, the finished assistant text (if any) and then
    /// the new user text are appended to the history — exactly one entry
    /// each — and exactly one new transfer starts.
    pub fn on_user_prompt(&mut self, user_prompt: String, llm_answer_prev: Option<String>) -> (id:
        u64)
        requires
            old(self).next_transfer_id < u64::MAX,
        ensures
            final(self).history@ == old(self).history@ + (match llm_answer_prev {
                Option::Some(a) => seq![(Role::Assistant, a)],
                Option::None => Seq::<(Role, String)>::empty(),
            }) + seq![(Role::User, user_prompt)],
            id == old(self).next_transfer_id,
            final(self).active_transfer == Option::Some(id),
            final(self).next_transfer_id == old(self).next_transfer_id + 1,
            final(self).polling_mode == PollingMode::AwaitRequestUpdate,
            final(self).running == old(self).running,
            transfer_wf(final(self)),
            advances(old(self), final(self)),
    {
        self.stop_ongoing();
        let ghost h0 = self.history@;
        let ghost prev0: Option<String> = llm_answer_prev;
        let ghost mid = h0 + (match prev0 {
            Option::Some(a) => seq![(Role::Assistant, a)],
            Option::None => Seq::<(Role, String)>::empty(),
        });
        match llm_answer_prev {
            Some(prev) => {
                self.history.push((Role::Assistant, prev));
                proof {
                    assert(self.history@ =~= mid);
                }
            },
            None => {
                proof {
                    assert(self.history@ =~= mid);
                }
            },
        }
        self.history.push((Role::User, user_prompt));
        proof {
            assert(self.history@ =~= mid + seq![(Role::User, self.history@.last().1)]);
        }
        self.start_transfer()
    }

    /// The terminal task asked the session to end, or its channel closed:
    /// the transfer is discarded and the loop stops.
    pub fn on_die(&mut self)
        ensures
            final(self).active_transfer is None,
            !final(self).running,
            final(self).history == old(self).history,
            final(self).next_transfer_id == old(self).next_transfer_id,
            transfer_wf(final(self)),
            advances(old(self), final(self)),
    {
        self.stop_ongoing();
        self.running = false;
    }

    /// Whether a piece tagged with `id` belongs to the transfer in flight;
    /// pieces of superseded transfers are refused.
    pub fn accept_piece(&self, id: u64) -> (r: bool)
        ensures
            r == (self.active_transfer == Option::Some(id)),
    {
        match self.active_transfer {
            Some(active) => active == id,
            None => false,
        }
    }

    /// The multiplexer reported how many transfers still run: at zero, the
    /// finished transfer is retired, one completion is owed to the terminal
    /// task, and the loop goes back to waiting for a prompt.
    pub fn on_poll_result(&mut self, running_handles: usize) -> (done: bool)
        requires
            transfer_wf(old(self)),
        ensures
            transfer_wf(final(self)),
            done == (running_handles == 0 && old(self).active_transfer is Some),
            done ==> final(self).active_transfer is None && final(self).polling_mode
                == PollingMode::AwaitPrompt,
            !done ==> *final(self) == *old(self),
            final(self).history == old(self).history,
            final(self).next_transfer_id == old(self).next_transfer_id,
            final(self).running == old(self).running,
            advances(old(self), final(self)),
    {
        if running_handles == 0 && self.active_transfer.is_some() {
            self.stop_ongoing();
            self.polling_mode = PollingMode::AwaitPrompt;
            true
        } else {
            false
        }
    }
}

/// Law: `advances` composes, so it bounds any run of orchestrator steps.
pub proof fn lemma_advances_trans(a: &RequestTask, b: &RequestTask, c: &RequestTask)
    requires
        advances(a, b),
        advances(b, c),
    ensures
        advances(a, c),
{
}

/// Law: cancellation is final. Once a transfer is superseded — it is no
/// longer the active one and its identifier lies below the next to be
/// handed out — no later state of the session accepts a piece tagged with
/// it: the discarded transfer's pieces are never delivered.
pub proof fn lemma_superseded_never_accepted(s1: &RequestTask, s2: &RequestTask, d: u64)
    requires
        d < s1.next_transfer_id,
        s1.active_transfer != Option::Some(d),
        advances(s1, s2),
    ensures
        s2.active_transfer != Option::Some(d),
{
}

} // verus!
