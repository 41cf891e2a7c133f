//! The dialogue state machine.
//!
//! `transition` is the single entry point: given a conversation's stage, the
//! raw text of an inbound message, and the outcome of the fetch probe (when
//! one was called for, see `probe_target`), it produces the next stage and
//! the outbound replies. It is pure: all network and store work stays with
//! the caller.

use vstd::prelude::*;

use crate::netcheck::{check_url, internal_host, lemma_internal_host_rejected, url_ok, url_parts_of};
use crate::states::{
    dialogue_wf, init_run_state, run_state_wf, saved_id_ok, Dialogue, DialogueV, RunState,
    RunStateV, MAX_SUBSCRIPTIONS,
};
use crate::text::{
    dec_digits, lemma_dec_digits_roundtrip, lemma_tokens_of_pair, parse_u64, parse_u64_spec,
    str_eq, token0, token0_exec, token1, token1_exec, u64_to_string,
};

verus! {

// ---------------------------------------------------------------------------
// The transition function, as a specification
// ---------------------------------------------------------------------------

/// The `/subscribe` step. Checks run in a fixed order: validity (syntax and
/// probe) before duplicate before capacity; only when all three pass is the
/// URL appended.
pub open spec fn subscribe_step(s: RunStateV, arg: Option<Seq<char>>, probe_ok: bool) -> (
    RunStateV,
    Seq<Seq<char>>,
) {
    match arg {
        None => (s, seq!["invalid url"@]),
        Some(u) => {
            if !(url_ok(u) && probe_ok) {
                (s, seq!["invalid url"@])
            } else if s.subscriptions.contains(u) {
                (s, seq!["already subscribed"@])
            } else if s.subscriptions.len() >= MAX_SUBSCRIPTIONS {
                (s, seq!["too many subscriptions"@])
            } else {
                (
                    RunStateV { subscriptions: s.subscriptions.push(u), ..s },
                    seq!["subscribed to: "@ + u],
                )
            }
        },
    }
}

/// The `/save` step: an id is accepted exactly when it parses as a decimal
/// numeral and lies strictly below the issued-id watermark.
pub open spec fn save_step(s: RunStateV, arg: Option<Seq<char>>) -> (RunStateV, Seq<Seq<char>>) {
    match arg {
        None => (s, seq!["invalid id"@]),
        Some(a) => match parse_u64_spec(a) {
            Some(id) => if saved_id_ok(s.last_msg_id, id) {
                (RunStateV { saved: s.saved.push(id), ..s }, seq!["saved!"@])
            } else {
                (s, seq!["invalid id"@])
            },
            None => (s, seq!["invalid id"@]),
        },
    }
}

/// One line of the `/subscriptions` listing: "{index}: {url}".
pub open spec fn sub_line(subs: Seq<Seq<char>>, i: int) -> Seq<char> {
    dec_digits(i) + ": "@ + subs[i]
}

/// The first `n` listing lines, joined with newlines.
pub open spec fn subs_lines(subs: Seq<Seq<char>>, n: int) -> Seq<char>
    decreases n,
{
    if n <= 0 {
        Seq::empty()
    } else if n == 1 {
        sub_line(subs, 0)
    } else {
        subs_lines(subs, n - 1) + "\n"@ + sub_line(subs, n - 1)
    }
}

/// The `/subscriptions` reply: a header, then one 0-indexed line per
/// subscription (an empty list leaves nothing beneath the header).
pub open spec fn subscriptions_msg(subs: Seq<Seq<char>>) -> Seq<char> {
    "your subscriptions: \n"@ + subs_lines(subs, subs.len() as int)
}

/// The `/unsubscribe` step: the argument must parse as a decimal index in
/// bounds, else the usage message comes back and the list stands unchanged.
pub open spec fn unsub_step(s: RunStateV, arg: Option<Seq<char>>) -> (RunStateV, Seq<Seq<char>>) {
    match arg {
        None => (s, seq!["Usage: /unsubscribe <id>"@]),
        Some(a) => match parse_u64_spec(a) {
            Some(id) => if (id as int) < s.subscriptions.len() {
                (
                    RunStateV { subscriptions: s.subscriptions.remove(id as int), ..s },
                    seq!["removed"@],
                )
            } else {
                (s, seq!["Usage: /unsubscribe <id>"@])
            },
            None => (s, seq!["Usage: /unsubscribe <id>"@]),
        },
    }
}

/// One step of an active session: empty input is a no-op; otherwise the
/// first space-separated token dispatches, an unknown command is a silent
/// no-op.
pub open spec fn run_step(s: RunStateV, input: Seq<char>, probe_ok: bool) -> (
    RunStateV,
    Seq<Seq<char>>,
) {
    if input.len() == 0 {
        (s, Seq::empty())
    } else {
        let c = token0(input);
        if c == "/subscribe"@ {
            subscribe_step(s, token1(input), probe_ok)
        } else if c == "/save"@ {
            save_step(s, token1(input))
        } else if c == "/subscriptions"@ {
            (s, seq![subscriptions_msg(s.subscriptions)])
        } else if c == "/unsubscribe"@ {
            unsub_step(s, token1(input))
        } else {
            (s, Seq::empty())
        }
    }
}

/// One step of a whole conversation. A conversation at its start stage
/// becomes an active session owned by the triggering user, is greeted, and
/// its first message is then handled by the fresh session; an active session
/// steps by `run_step`.
pub open spec fn dialogue_step(
    d: DialogueV,
    owner: int,
    chat_id: int,
    input: Seq<char>,
    probe_ok: bool,
) -> (DialogueV, Seq<Seq<char>>) {
    match d {
        DialogueV::Start => {
            let sr = run_step(init_run_state(owner, chat_id), input, probe_ok);
            (DialogueV::Run(sr.0), seq!["Welcome"@] + sr.1)
        },
        DialogueV::Run(s) => {
            let sr = run_step(s, input, probe_ok);
            (DialogueV::Run(sr.0), sr.1)
        },
    }
}

/// The URL that the caller must probe before stepping, if any: present
/// exactly when the input is a `/subscribe` whose argument passes the
/// syntactic URL check. A URL that fails the check is never probed.
pub open spec fn probe_target_spec(input: Seq<char>) -> Option<Seq<char>> {
    if input.len() > 0 && token0(input) == "/subscribe"@ {
        match token1(input) {
            Some(u) => if url_ok(u) {
                Some(u)
            } else {
                None
            },
            None => None,
        }
    } else {
        None
    }
}

// ---------------------------------------------------------------------------
// Executable implementation
// ---------------------------------------------------------------------------

/// Whether the list already holds this URL.
fn contains_str(v: &Vec<String>, u: &str) -> (r: bool)
    ensures
        r == v.deep_view().contains(u@),
{
    let mut i: usize = 0;
    while i < v.len()
        invariant
            0 <= i <= v.len(),
            forall|j: int| 0 <= j < i ==> v.deep_view()[j] != u@,
        decreases v.len() - i,
    {
        if str_eq(v[i].as_str(), u) {
            assert(v.deep_view()[i as int] == u@);
            return true;
        }
        i = i + 1;
    }
    assert(!v.deep_view().contains(u@));
    false
}

/// Build the `/subscriptions` reply.
fn subscriptions_listing(subs: &Vec<String>) -> (r: String)
    ensures
        r@ == subscriptions_msg(subs.deep_view()),
{
    let ghost gsubs = subs.deep_view();
    let mut out = String::from_str("your subscriptions: \n");
    let mut i: usize = 0;
    while i < subs.len()
        invariant
            0 <= i <= subs.len(),
            gsubs == subs.deep_view(),
            gsubs.len() == subs.len(),
            out@ == "your subscriptions: \n"@ + subs_lines(gsubs, i as int),
        decreases subs.len() - i,
    {
        if i > 0 {
            out.append("\n");
        }
        let num = u64_to_string(i as u64);
        out.append(num.as_str());
        out.append(": ");
        out.append(subs[i].as_str());
        proof {
            assert(i as u64 as int == i as int);
            assert(subs.deep_view()[i as int] == subs@[i as int]@);
            assert(out@ =~= "your subscriptions: \n"@ + subs_lines(gsubs, i as int + 1));
        }
        i = i + 1;
    }
    out
}

/// Appending a URL that is not yet present keeps the list duplicate-free.
proof fn lemma_push_no_duplicates(s: Seq<Seq<char>>, u: Seq<char>)
    requires
        s.no_duplicates(),
        !s.contains(u),
    ensures
        s.push(u).no_duplicates(),
{
    let t = s.push(u);
    assert forall|i: int, j: int| 0 <= i < t.len() && 0 <= j < t.len() && i != j implies t[i]
        != t[j] by {
        if i < s.len() && j < s.len() {
            assert(s[i] == t[i] && s[j] == t[j]);
        } else if i < s.len() {
            assert(s.contains(s[i]));
        } else if j < s.len() {
            assert(s.contains(s[j]));
        }
    }
}

/// Removing an entry keeps the list duplicate-free.
proof fn lemma_remove_no_duplicates(s: Seq<Seq<char>>, k: int)
    requires
        s.no_duplicates(),
        0 <= k < s.len(),
    ensures
        s.remove(k).no_duplicates(),
{
    let t = s.remove(k);
    assert forall|i: int, j: int| 0 <= i < t.len() && 0 <= j < t.len() && i != j implies t[i]
        != t[j] by {
        let i0 = if i < k { i } else { i + 1 };
        let j0 = if j < k { j } else { j + 1 };
        assert(t[i] == s[i0] && t[j] == s[j0]);
    }
}

/// One step of an active session; see `run_step` for what each command does.
pub fn run_transition(state: RunState, input: &str, probe_ok: bool) -> (r: (RunState, Vec<String>))
    requires
        run_state_wf(state@),
    ensures
        (r.0@, r.1.deep_view()) == run_step(state@, input@, probe_ok),
        run_state_wf(r.0@),
{
    let ghost s0 = state@;
    let ghost expect = run_step(state@, input@, probe_ok);
    let mut s = state;
    let mut msgs: Vec<String> = Vec::new();
    assert(msgs.deep_view() =~= Seq::<Seq<char>>::empty());
    if input.is_empty() {
        return (s, msgs);
    }
    let cmd = token0_exec(input);
    if str_eq(cmd, "/subscribe") {
        match token1_exec(input) {
            None => {
                msgs.push(String::from_str("invalid url"));
                assert(msgs.deep_view() =~= seq!["invalid url"@]);
            },
            Some(u) => {
                if !(check_url(u) && probe_ok) {
                    msgs.push(String::from_str("invalid url"));
                    assert(msgs.deep_view() =~= seq!["invalid url"@]);
                } else if contains_str(&s.subscriptions, u) {
                    msgs.push(String::from_str("already subscribed"));
                    assert(msgs.deep_view() =~= seq!["already subscribed"@]);
                } else if s.subscriptions.len() >= MAX_SUBSCRIPTIONS {
                    msgs.push(String::from_str("too many subscriptions"));
                    assert(msgs.deep_view() =~= seq!["too many subscriptions"@]);
                } else {
                    proof {
                        lemma_push_no_duplicates(s0.subscriptions, u@);
                    }
                    s.subscriptions.push(String::from_str(u));
                    let reply = String::from_str("subscribed to: ").concat(u);
                    msgs.push(reply);
                    assert(s@.subscriptions =~= s0.subscriptions.push(u@));
                    assert(msgs.deep_view() =~= seq!["subscribed to: "@ + u@]);
                    assert(s@ == expect.0);
                }
            },
        }
        assert(s@ == expect.0 && msgs.deep_view() == expect.1);
        return (s, msgs);
    }
    if str_eq(cmd, "/save") {
        let accepted: bool = match token1_exec(input) {
            None => false,
            Some(a) => match parse_u64(a) {
                Some(id) => {
                    let floor = match s.last_msg_id {
                        Some(m) => m,
                        None => 0,
                    };
                    if s.last_msg_id.is_some() && id < floor {
                        s.saved.push(id);
                        assert(s@.saved =~= s0.saved.push(id));
                        assert forall|i: int| 0 <= i < s@.saved.len() implies saved_id_ok(
                            s@.last_msg_id,
                            #[trigger] s@.saved[i],
                        ) by {
                            if i < s0.saved.len() {
                                assert(s@.saved[i] == s0.saved[i]);
                            }
                        }
                        true
                    } else {
                        false
                    }
                },
                None => false,
            },
        };
        if accepted {
            msgs.push(String::from_str("saved!"));
            assert(msgs.deep_view() =~= seq!["saved!"@]);
        } else {
            msgs.push(String::from_str("invalid id"));
            assert(msgs.deep_view() =~= seq!["invalid id"@]);
        }
        assert(s@ == expect.0 && msgs.deep_view() == expect.1);
        return (s, msgs);
    }
    if str_eq(cmd, "/subscriptions") {
        let listing = subscriptions_listing(&s.subscriptions);
        msgs.push(listing);
        assert(msgs.deep_view() =~= seq![subscriptions_msg(s0.subscriptions)]);
        assert(s@ == expect.0 && msgs.deep_view() == expect.1);
        return (s, msgs);
    }
    if str_eq(cmd, "/unsubscribe") {
        let removed: bool = match token1_exec(input) {
            None => false,
            Some(a) => match parse_u64(a) {
                Some(id) => {
                    if id < s.subscriptions.len() as u64 {
                        proof {
                            lemma_remove_no_duplicates(s0.subscriptions, id as int);
                        }
                        let _ = s.subscriptions.remove(id as usize);
                        assert(s@.subscriptions =~= s0.subscriptions.remove(id as int));
                        true
                    } else {
                        false
                    }
                },
                None => false,
            },
        };
        if removed {
            msgs.push(String::from_str("removed"));
            assert(msgs.deep_view() =~= seq!["removed"@]);
        } else {
            msgs.push(String::from_str("Usage: /unsubscribe <id>"));
            assert(msgs.deep_view() =~= seq!["Usage: /unsubscribe <id>"@]);
        }
        assert(s@ == expect.0 && msgs.deep_view() == expect.1);
        return (s, msgs);
    }
    assert(s@ == expect.0 && msgs.deep_view() == expect.1);
    (s, msgs)
}

/// One step of a whole conversation; see `dialogue_step`.
pub fn transition(d: Dialogue, owner: i32, chat_id: i64, input: &str, probe_ok: bool) -> (r: (
    Dialogue,
    Vec<String>,
))
    requires
        dialogue_wf(d@),
    ensures
        (r.0@, r.1.deep_view()) == dialogue_step(d@, owner as int, chat_id as int, input@, probe_ok),
        dialogue_wf(r.0@),
{
    match d {
        Dialogue::Start(_) => {
            let fresh = RunState::new(owner, chat_id);
            let (s2, replies) = run_transition(fresh, input, probe_ok);
            let mut msgs: Vec<String> = Vec::new();
            msgs.push(String::from_str("Welcome"));
            let mut rest = replies;
            msgs.append(&mut rest);
            proof {
                let step = run_step(init_run_state(owner as int, chat_id as int), input@, probe_ok);
                assert(msgs.deep_view() =~= seq!["Welcome"@] + step.1);
            }
            (Dialogue::Run(s2), msgs)
        },
        Dialogue::Run(s) => {
            let (s2, msgs) = run_transition(s, input, probe_ok);
            (Dialogue::Run(s2), msgs)
        },
    }
}

// ---------------------------------------------------------------------------
// Laws of the transition function
// ---------------------------------------------------------------------------

/// Subscribing to a URL already on the list is answered "already subscribed"
/// whenever the URL is valid and the probe passed — the only way the first
/// subscription can have been accepted — and the list stands unchanged.
pub proof fn lemma_subscribe_duplicate(s: RunStateV, u: Seq<char>, probe_ok: bool)
    requires
        s.subscriptions.contains(u),
        url_ok(u),
        probe_ok,
    ensures
        subscribe_step(s, Some(u), probe_ok) == (s, seq!["already subscribed"@]),
{
}

/// Subscribing to a URL already on the list never changes the list, whatever
/// the probe said.
pub proof fn lemma_subscribe_duplicate_count(s: RunStateV, u: Seq<char>, probe_ok: bool)
    requires
        s.subscriptions.contains(u),
    ensures
        subscribe_step(s, Some(u), probe_ok).0 == s,
{
}

/// The duplicate answer, stated for a whole input line: for any URL already
/// on the list, the message "/subscribe {url}" is answered
/// "already subscribed" and the state stands unchanged.
pub proof fn lemma_subscribe_duplicate_input(s: RunStateV, u: Seq<char>, probe_ok: bool)
    requires
        s.subscriptions.contains(u),
        url_ok(u),
        probe_ok,
        forall|j: int| 0 <= j < u.len() ==> u[j] != ' ',
    ensures
        run_step(s, "/subscribe"@ + seq![' '] + u, probe_ok) == (s, seq!["already subscribed"@]),
{
    reveal_strlit("/subscribe");
    assert forall|j: int| 0 <= j < "/subscribe"@.len() implies "/subscribe"@[j] != ' ' by {
        reveal_strlit("/subscribe");
    }
    lemma_tokens_of_pair("/subscribe"@, u);
}

/// A valid, fresh URL offered to a full list is refused for capacity, and
/// the state stands unchanged.
pub proof fn lemma_subscribe_capacity(s: RunStateV, u: Seq<char>, probe_ok: bool)
    requires
        s.subscriptions.len() >= MAX_SUBSCRIPTIONS,
        !s.subscriptions.contains(u),
        url_ok(u),
        probe_ok,
    ensures
        subscribe_step(s, Some(u), probe_ok) == (s, seq!["too many subscriptions"@]),
{
}

/// Unsubscribing an in-range index removes exactly that entry: every entry
/// below keeps its index and every entry above shifts down by one.
pub proof fn lemma_unsubscribe_shifts(s: RunStateV, i: u64)
    requires
        (i as int) < s.subscriptions.len(),
    ensures
        ({
            let r = unsub_step(s, Some(dec_digits(i as int)));
            &&& r.0.subscriptions == s.subscriptions.remove(i as int)
            &&& r.1 == seq!["removed"@]
            &&& r.0.subscriptions.len() == s.subscriptions.len() - 1
            &&& forall|j: int| 0 <= j < i ==> r.0.subscriptions[j] == s.subscriptions[j]
            &&& forall|j: int|
                i <= j < s.subscriptions.len() - 1 ==> r.0.subscriptions[j] == s.subscriptions[j
                    + 1]
        }),
{
    lemma_dec_digits_roundtrip(i);
}

/// An out-of-range or unparseable unsubscribe argument gets the usage
/// message and leaves the state untouched — never a failure.
pub proof fn lemma_unsubscribe_out_of_range(s: RunStateV, arg: Option<Seq<char>>)
    requires
        (match arg {
            Some(a) => match parse_u64_spec(a) {
                Some(id) => s.subscriptions.len() <= id as int,
                None => true,
            },
            None => true,
        }),
    ensures
        unsub_step(s, arg) == (s, seq!["Usage: /unsubscribe <id>"@]),
{
}

/// Saving an id at or above the issued-id watermark — in particular any id
/// at all while no notification was ever issued — is rejected, and the
/// state stands unchanged.
pub proof fn lemma_save_rejected(s: RunStateV, id: u64)
    requires
        !saved_id_ok(s.last_msg_id, id),
    ensures
        save_step(s, Some(dec_digits(id as int))) == (s, seq!["invalid id"@]),
{
    lemma_dec_digits_roundtrip(id);
}

/// Saving an id strictly below the watermark succeeds and appends the id
/// exactly once.
pub proof fn lemma_save_appends(s: RunStateV, id: u64)
    requires
        saved_id_ok(s.last_msg_id, id),
    ensures
        ({
            let r = save_step(s, Some(dec_digits(id as int)));
            &&& r.0 == (RunStateV { saved: s.saved.push(id), ..s })
            &&& r.1 == seq!["saved!"@]
        }),
{
    lemma_dec_digits_roundtrip(id);
}

/// A conversation's first message always activates it: whatever the input
/// and probe outcome, the next stage is an active session and the first
/// reply is the greeting.
pub proof fn lemma_start_always_activates(
    owner: int,
    chat_id: int,
    input: Seq<char>,
    probe_ok: bool,
)
    ensures
        dialogue_step(DialogueV::Start, owner, chat_id, input, probe_ok).0 is Run,
        dialogue_step(DialogueV::Start, owner, chat_id, input, probe_ok).1.len() >= 1,
        dialogue_step(DialogueV::Start, owner, chat_id, input, probe_ok).1[0] == "Welcome"@,
{
}

/// No command reassigns a session's identity: the owner, the destination
/// conversation and the issued-id watermark survive every step.
pub proof fn lemma_step_preserves_identity(s: RunStateV, input: Seq<char>, probe_ok: bool)
    ensures
        run_step(s, input, probe_ok).0.owner == s.owner,
        run_step(s, input, probe_ok).0.chat_id == s.chat_id,
        run_step(s, input, probe_ok).0.last_msg_id == s.last_msg_id,
{
}

/// A `/subscribe` whose URL has an internal host is rejected as an invalid
/// URL with the state unchanged, whatever the probe flag says — and no
/// probe target arises for it, so the network is never consulted.
pub proof fn lemma_internal_url_never_probed(
    s: RunStateV,
    input: Seq<char>,
    u: Seq<char>,
    probe_ok: bool,
)
    requires
        input.len() > 0,
        token0(input) == "/subscribe"@,
        token1(input) == Some(u),
        (match url_parts_of(u) {
            Some((scheme, host)) => match host {
                Some(h) => internal_host(h),
                None => true,
            },
            None => true,
        }),
    ensures
        probe_target_spec(input) is None,
        run_step(s, input, probe_ok) == (s, seq!["invalid url"@]),
{
    if url_parts_of(u) matches Some((scheme, Some(h))) && internal_host(h) {
        lemma_internal_host_rejected(u);
    }
}

/// The URL to probe before stepping, if the input calls for one.
pub fn probe_target(input: &str) -> (r: Option<String>)
    ensures
        r.deep_view() == probe_target_spec(input@),
{
    if input.is_empty() {
        return None;
    }
    let cmd = token0_exec(input);
    if !str_eq(cmd, "/subscribe") {
        return None;
    }
    match token1_exec(input) {
        None => None,
        Some(u) => {
            if check_url(u) {
                Some(String::from_str(u))
            } else {
                None
            }
        },
    }
}

} // verus!
