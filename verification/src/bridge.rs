use vstd::prelude::*;

use crate::assoc::{assoc_get, assoc_remove, assoc_set};
use crate::json::{Json, JsonV};
use crate::pending::PendingTable;
use crate::protocol::{
    initialize_model, initialize_response, tool_content, tool_content_model, tool_list_response,
    wf_tool_list, JsonRpcRequest, JsonRpcResponse, CODE_INTERNAL_ERROR, CODE_INVALID_PARAMS,
    CODE_METHOD_NOT_FOUND,
};
use rand::distr::{Alphanumeric, SampleString};
use vstd::string::StringExecFns;

verus! {

/// An ASCII letter or digit.
pub open spec fn is_alnum_char(c: char) -> bool {
    ('a' <= c && c <= 'z') || ('A' <= c && c <= 'Z') || ('0' <= c && c <= '9')
}

/// Relies on rand's `Alphanumeric` distribution through `SampleString`:
/// the sample holds exactly the requested number of characters, each an
/// ASCII letter or digit. Nothing is assumed about which ones.
#[verifier::external_body]
fn sample_auth_token() -> (t: String)
    ensures
        t@.len() == 32,
        forall|i: int| 0 <= i < t@.len() ==> is_alnum_char(#[trigger] t@[i]),
{
    Alphanumeric.sample_string(&mut rand::rng(), 32)
}

/// Relies on `rand::random_range`: a value drawn from the given range;
/// of the result only the bounds are assumed.
#[verifier::external_body]
fn random_port_candidate() -> (p: u16)
    ensures
        10000 <= p < 65535,
{
    rand::random_range(10000..65535u16)
}

/// Relies on `uuid::Uuid::new_v4` and its hyphenated rendering: a fresh
/// random identifier of 36 characters. Nothing is assumed about its
/// uniqueness: every caller copes with collisions.
#[verifier::external_body]
pub(crate) fn fresh_id() -> (s: String)
    ensures
        s@.len() == 36,
{
    uuid::Uuid::new_v4().to_string()
}

/// The randomized candidate ports the listener probes in order until
/// one binds: not a fixed, guessable port, and distinct instances
/// rarely contend.
pub fn pick_port_candidates() -> (ports: Vec<u16>)
    ensures
        ports@.len() == 100,
        forall|i: int| 0 <= i < ports@.len() ==> 10000 <= #[trigger] ports@[i] < 65535,
{
    let mut ports: Vec<u16> = Vec::new();
    let mut i: usize = 0;
    while i < 100
        invariant
            i <= 100,
            ports@.len() == i,
            forall|j: int| 0 <= j < ports@.len() ==> 10000 <= #[trigger] ports@[j] < 65535,
        decreases 100 - i,
    {
        ports.push(random_port_candidate());
        i = i + 1;
    }
    ports
}

/// True when some recorded session carries this identifier.
pub open spec fn has_id(ids: Seq<Seq<char>>, id: Seq<char>) -> bool {
    exists|i: int| 0 <= i < ids.len() && ids[i] == id
}

/// The identifiers of a session list, in order.
pub open spec fn ids_view(ids: Seq<String>) -> Seq<Seq<char>>
    decreases ids,
{
    if ids.len() == 0 {
        Seq::empty()
    } else {
        ids_view(ids.drop_last()).push(ids.last()@)
    }
}

/// `ids_view` maps the sequence pointwise.
pub proof fn lemma_ids_view(ids: Seq<String>)
    ensures
        ids_view(ids).len() == ids.len(),
        forall|i: int| 0 <= i < ids.len() ==> #[trigger] ids_view(ids)[i] == ids[i]@,
    decreases ids.len(),
{
    if ids.len() > 0 {
        lemma_ids_view(ids.drop_last());
        assert forall|i: int| 0 <= i < ids.len() implies #[trigger] ids_view(ids)[i]
            == ids[i]@ by {
            if i < ids.len() - 1 {
                assert(ids_view(ids)[i] == ids_view(ids.drop_last())[i]);
                assert(ids.drop_last()[i] == ids[i]);
            } else {
                assert(ids.last() == ids[i]);
            }
        }
    }
}

/// The registry of live event-stream sessions, keyed by their session
/// identifiers.
pub struct SessionSet {
    ids: Vec<String>,
}

impl View for SessionSet {
    type V = Seq<Seq<char>>;

    closed spec fn view(&self) -> Seq<Seq<char>> {
        ids_view(self.ids@)
    }
}

impl SessionSet {
    /// No identifier is recorded twice.
    pub open spec fn wf(self) -> bool {
        forall|i: int, j: int|
            0 <= i < j < self@.len() ==> (#[trigger] self@[i]) != (#[trigger] self@[j])
    }

    /// An empty registry.
    pub fn new() -> (s: Self)
        ensures
            s@ == Seq::<Seq<char>>::empty(),
            s.wf(),
    {
        SessionSet { ids: Vec::new() }
    }

    /// How many sessions are live.
    pub fn len(&self) -> (n: usize)
        ensures
            n == self@.len(),
    {
        proof {
            lemma_ids_view(self.ids@);
        }
        self.ids.len()
    }

    /// Index of the session `id`, if it is recorded.
    fn index_of(&self, id: &String) -> (r: Option<usize>)
        ensures
            match r {
                Some(i) => i < self@.len() && self@[i as int] == id@,
                None => !has_id(self@, id@),
            },
    {
        proof {
            lemma_ids_view(self.ids@);
        }
        let mut i: usize = 0;
        while i < self.ids.len()
            invariant
                i <= self.ids@.len(),
                self@.len() == self.ids@.len(),
                forall|j: int| 0 <= j < self.ids@.len() ==> #[trigger] self@[j] == self.ids@[j]@,
                forall|j: int| 0 <= j < i ==> #[trigger] self@[j] != id@,
            decreases self.ids@.len() - i,
        {
            if self.ids[i] == *id {
                return Some(i);
            }
            i = i + 1;
        }
        None
    }

    /// True when the session is recorded.
    pub fn contains(&self, id: &String) -> (r: bool)
        ensures
            r == has_id(self@, id@),
    {
        self.index_of(id).is_some()
    }

    /// Records a session. Recording an identifier twice leaves one entry.
    pub fn add(&mut self, id: String)
        requires
            old(self).wf(),
        ensures
            final(self).wf(),
            forall|x: Seq<char>|
                #[trigger] has_id(final(self)@, x) == (has_id(old(self)@, x) || x == id@),
    {
        let ghost s0 = self@;
        proof {
            lemma_ids_view(self.ids@);
        }
        if !self.contains(&id) {
            self.ids.push(id);
            proof {
                assert(self.ids@.drop_last() =~= old(self).ids@);
                assert(self@ =~= s0.push(self.ids@.last()@));
                assert forall|x: Seq<char>| #[trigger] has_id(self@, x) == (has_id(s0, x) || x
                    == self.ids@.last()@) by {
                    if has_id(s0, x) {
                        let w = choose|i: int| 0 <= i < s0.len() && s0[i] == x;
                        assert(self@[w] == x);
                    }
                    if x == self.ids@.last()@ {
                        assert(self@[s0.len() as int] == x);
                    }
                    if has_id(self@, x) {
                        let w = choose|i: int| 0 <= i < self@.len() && self@[i] == x;
                        if w < s0.len() {
                            assert(s0[w] == x);
                        }
                    }
                }
            }
        } else {
            proof {
                assert forall|x: Seq<char>| #[trigger] has_id(self@, x) == (has_id(s0, x) || x
                    == id@) by {
                    if x == id@ {
                        assert(has_id(s0, x));
                    }
                }
            }
        }
    }

    /// Forgets a session; absent identifiers are ignored.
    pub fn remove(&mut self, id: &String)
        requires
            old(self).wf(),
        ensures
            final(self).wf(),
            forall|x: Seq<char>|
                #[trigger] has_id(final(self)@, x) == (has_id(old(self)@, x) && x != id@),
    {
        let ghost s0 = self@;
        proof {
            lemma_ids_view(self.ids@);
        }
        match self.index_of(id) {
            Some(i) => {
                let _ = self.ids.remove(i);
                proof {
                    lemma_ids_view(self.ids@);
                    assert(self@ =~= s0.remove(i as int));
                    assert forall|a: int, b: int| 0 <= a < b < self@.len() implies (
                    #[trigger] self@[a]) != (#[trigger] self@[b]) by {
                        let a0: int = if a < i { a } else { a + 1 };
                        let b0: int = if b < i { b } else { b + 1 };
                        assert(self@[a] == s0[a0]);
                        assert(self@[b] == s0[b0]);
                    }
                    assert forall|x: Seq<char>| #[trigger] has_id(self@, x) == (has_id(s0, x) && x
                        != id@) by {
                        if has_id(self@, x) {
                            let w = choose|j: int| 0 <= j < self@.len() && self@[j] == x;
                            let w0: int = if w < i { w } else { w + 1 };
                            assert(s0[w0] == x);
                            if x == id@ {
                                assert(s0[w0] == s0[i as int]);
                            }
                        }
                        if has_id(s0, x) && x != id@ {
                            let w = choose|j: int| 0 <= j < s0.len() && s0[j] == x;
                            let w1: int = if w < i { w } else { w - 1 };
                            assert(self@[w1] == x);
                        }
                    }
                }
            },
            None => {
                proof {
                    assert forall|x: Seq<char>| #[trigger] has_id(self@, x) == (has_id(s0, x) && x
                        != id@) by {
                        if has_id(s0, x) && x == id@ {
                            let w = choose|j: int| 0 <= j < s0.len() && s0[j] == x;
                        }
                    }
                }
            },
        }
    }
}

/// The bridge's cross-task state: the shared secret, the connection
/// flag, the single notification target, the live event-stream sessions,
/// and the pending-call table.
pub struct Bridge {
    pub expected_auth: String,
    pub connected: bool,
    pub notify_target: Option<String>,
    pub sse_sessions: SessionSet,
    pub pending: PendingTable,
}

/// What a connection attempt came to.
pub enum ConnectOutcome {
    /// The token was wrong: reject before any session exists. No state
    /// changes and no connectivity notification is announced.
    Rejected,
    /// The session is up; announce the connectivity change.
    Accepted,
}

impl Bridge {
    /// Both tables are well formed.
    pub open spec fn wf(self) -> bool {
        self.pending.wf() && self.sse_sessions.wf()
    }

    /// A bridge that expects `auth` on every connection attempt, with no
    /// client connected and nothing pending.
    pub fn new(auth: String) -> (b: Self)
        ensures
            b.wf(),
            b.expected_auth == auth,
            !b.connected,
            b.notify_target is None,
            b.sse_sessions@ == Seq::<Seq<char>>::empty(),
            b.pending@ == Seq::<(Seq<char>, (JsonV, Seq<char>))>::empty(),
    {
        Bridge {
            expected_auth: auth,
            connected: false,
            notify_target: None,
            sse_sessions: SessionSet::new(),
            pending: PendingTable::new(),
        }
    }

    /// True when the presented token is exactly the shared secret. A
    /// missing header never authenticates.
    pub fn auth_ok(&self, presented: Option<&String>) -> (r: bool)
        ensures
            r == match presented {
                Some(t) => t@ == self.expected_auth@,
                None => false,
            },
    {
        match presented {
            Some(t) => *t == self.expected_auth,
            None => false,
        }
    }

    /// A client finished the socket upgrade: with the right token the
    /// session opens and becomes the notification target; with a wrong
    /// or missing token nothing changes and no session exists.
    pub fn ws_connect(&mut self, presented: Option<&String>, session_id: String) -> (r:
        ConnectOutcome)
        requires
            old(self).wf(),
        ensures
            final(self).wf(),
            match presented {
                Some(t) if t@ == old(self).expected_auth@ => r is Accepted && *final(self)
                    == (Bridge {
                    connected: true,
                    notify_target: Some(session_id),
                    ..*old(self)
                }),
                _ => r is Rejected && *final(self) == *old(self),
            },
    {
        if !self.auth_ok(presented) {
            return ConnectOutcome::Rejected;
        }
        self.connected = true;
        self.notify_target = Some(session_id);
        ConnectOutcome::Accepted
    }

    /// The socket session ended (close frame, read error, or a failed
    /// keepalive): the client counts as disconnected and unsolicited
    /// pushes stop.
    pub fn ws_disconnect(&mut self)
        requires
            old(self).wf(),
        ensures
            final(self).wf(),
            *final(self) == (Bridge { connected: false, notify_target: None, ..*old(self) }),
    {
        self.connected = false;
        self.notify_target = None;
    }

    /// A client opened the event stream: with the right token a session
    /// is recorded under `session_id` and becomes the notification
    /// target; with a wrong or missing token nothing changes.
    pub fn sse_connect(&mut self, presented: Option<&String>, session_id: String) -> (r:
        ConnectOutcome)
        requires
            old(self).wf(),
        ensures
            final(self).wf(),
            match presented {
                Some(t) if t@ == old(self).expected_auth@ => {
                    &&& r is Accepted
                    &&& final(self).connected
                    &&& final(self).notify_target matches Some(n) && n@ == session_id@
                    &&& forall|x: Seq<char>|
                        #[trigger] has_id(final(self).sse_sessions@, x) == (has_id(
                            old(self).sse_sessions@,
                            x,
                        ) || x == session_id@)
                    &&& final(self).pending == old(self).pending
                    &&& final(self).expected_auth == old(self).expected_auth
                },
                _ => r is Rejected && *final(self) == *old(self),
            },
    {
        if !self.auth_ok(presented) {
            return ConnectOutcome::Rejected;
        }
        let target = session_id.clone();
        self.sse_sessions.add(session_id);
        self.connected = true;
        self.notify_target = Some(target);
        ConnectOutcome::Accepted
    }

    /// The event-stream watchdog found the session abandoned: forget it,
    /// count the client as disconnected, and stop unsolicited pushes.
    pub fn sse_disconnect(&mut self, session_id: &String)
        requires
            old(self).wf(),
        ensures
            final(self).wf(),
            !final(self).connected,
            final(self).notify_target is None,
            forall|x: Seq<char>|
                #[trigger] has_id(final(self).sse_sessions@, x) == (has_id(
                    old(self).sse_sessions@,
                    x,
                ) && x != session_id@),
            final(self).pending == old(self).pending,
            final(self).expected_auth == old(self).expected_auth,
    {
        self.sse_sessions.remove(session_id);
        self.connected = false;
        self.notify_target = None;
    }

    /// Where an unsolicited push from the application goes: the most
    /// recently established session, if one is connected.
    pub fn current_target(&self) -> (r: Option<&String>)
        ensures
            match r {
                Some(t) => self.notify_target == Some(*t),
                None => self.notify_target is None,
            },
    {
        self.notify_target.as_ref()
    }
}

/// The side-channel path an event-stream client must POST follow-up
/// messages to, carrying its session identifier.
pub fn endpoint_path(session_id: &String) -> (r: String)
    ensures
        r@ == "/message?sessionId="@ + session_id@,
{
    let base = String::from_str("/message?sessionId=");
    base.concat(session_id.as_str())
}

/// The tool a call names: the `name` parameter when it is a string,
/// else the empty name.
pub open spec fn tool_name_of(params: JsonV) -> Seq<char> {
    if params is Obj {
        match assoc_get(params.fields(), "name"@) {
            Some(JsonV::Str(s)) => s,
            _ => Seq::empty(),
        }
    } else {
        Seq::empty()
    }
}

/// The arguments a call carries: the `arguments` parameter, or an empty
/// object when absent.
pub open spec fn arguments_of(params: JsonV) -> JsonV {
    if params is Obj {
        match assoc_get(params.fields(), "arguments"@) {
            Some(v) => v,
            _ => JsonV::Obj(Seq::empty()),
        }
    } else {
        JsonV::Obj(Seq::empty())
    }
}

/// What the dispatch core decides for one decoded message, before any
/// state is touched.
pub enum DecisionV {
    /// No reply: a notification, or a message that could not be decoded.
    Drop,
    /// Answer with the capability-negotiation payload.
    ReplyInitialize { id: JsonV },
    /// Answer with the tool catalog.
    ReplyToolList { id: JsonV },
    /// The call carried no parameters: answer with a parameter error.
    ReplyInvalidParams { id: JsonV },
    /// The method is unknown: answer with a method-not-found error.
    ReplyMethodNotFound { id: JsonV, method: Seq<char> },
    /// Hand the call to the application and suspend the reply.
    StartTool { id: JsonV, tool: Seq<char>, arguments: JsonV },
}

/// The dispatch core's decision, by method name. A message without an
/// id never produces a reply; the initialization-complete notification
/// is never answered under any circumstances.
pub open spec fn decision_of(id: Option<JsonV>, method: Seq<char>, params: Option<JsonV>) -> DecisionV {
    match id {
        None => DecisionV::Drop,
        Some(i) => {
            if method == "initialize"@ {
                DecisionV::ReplyInitialize { id: i }
            } else if method == "notifications/initialized"@ {
                DecisionV::Drop
            } else if method == "tools/list"@ {
                DecisionV::ReplyToolList { id: i }
            } else if method == "tools/call"@ {
                match params {
                    None => DecisionV::ReplyInvalidParams { id: i },
                    Some(p) => DecisionV::StartTool {
                        id: i,
                        tool: tool_name_of(p),
                        arguments: arguments_of(p),
                    },
                }
            } else {
                DecisionV::ReplyMethodNotFound { id: i, method }
            }
        },
    }
}

/// Law: replies correlate to request ids. A message without an id (a
/// notification) is dropped and answered by nothing, and the
/// initialization-complete notification is never answered; every other
/// message with an id gets exactly one decision — an immediate reply or
/// one started tool call — carrying exactly that id.
pub proof fn law_reply_matches_request_id(
    id: Option<JsonV>,
    method: Seq<char>,
    params: Option<JsonV>,
)
    ensures
        id is None ==> decision_of(id, method, params) is Drop,
        method == "notifications/initialized"@ ==> decision_of(id, method, params) is Drop,
        match id {
            Some(i) => method != "notifications/initialized"@ ==> match decision_of(
                id,
                method,
                params,
            ) {
                DecisionV::Drop => false,
                DecisionV::ReplyInitialize { id: rid } => rid == i,
                DecisionV::ReplyToolList { id: rid } => rid == i,
                DecisionV::ReplyInvalidParams { id: rid } => rid == i,
                DecisionV::ReplyMethodNotFound { id: rid, .. } => rid == i,
                DecisionV::StartTool { id: rid, .. } => rid == i,
            },
            None => true,
        },
{
    reveal_strlit("initialize");
    reveal_strlit("notifications/initialized");
    assert("initialize"@.len() == 10);
    assert("notifications/initialized"@.len() == 25);
}

/// What dispatching one inbound message produced.
pub enum DispatchOutcome {
    /// Nothing goes back: a notification or malformed input.
    NoReply,
    /// An immediate reply for the originating session.
    Reply(JsonRpcResponse),
    /// The call was recorded and handed to the application: emit a
    /// tool-invocation event carrying these, then wait for resolution.
    ToolStarted { call_id: String, tool: String, arguments: Json },
}

/// How resolving a pending call came out.
pub enum ResolveOutcome {
    /// Emit `response` on the session the call originated from.
    Delivered { session_id: String, response: JsonRpcResponse },
    /// The call was not pending — already answered, timed out, or never
    /// started. Nothing is emitted; the completion was stale.
    Stale,
}

impl Bridge {
    /// Dispatches one decoded inbound message (`None` marks input whose
    /// decoding failed, which is dropped without an answer). A started
    /// tool call is recorded under `call_id` and must be resolved,
    /// failed, or timed out exactly once later.
    pub fn handle_request(
        &mut self,
        session_id: &String,
        msg: Option<JsonRpcRequest>,
        call_id: String,
    ) -> (r: DispatchOutcome)
        requires
            old(self).wf(),
        ensures
            final(self).wf(),
            final(self).expected_auth == old(self).expected_auth,
            final(self).connected == old(self).connected,
            final(self).notify_target == old(self).notify_target,
            final(self).sse_sessions == old(self).sse_sessions,
            ({
                let d = match msg {
                    None => DecisionV::Drop,
                    Some(m) => decision_of(m.id.deep_view(), m.method@, m.params.deep_view()),
                };
                match d {
                    DecisionV::Drop => r is NoReply && final(self).pending == old(self).pending,
                    DecisionV::ReplyInitialize { id } => {
                        &&& final(self).pending == old(self).pending
                        &&& r matches DispatchOutcome::Reply(resp)
                        &&& resp.wf()
                        &&& resp.id.deep_view() == id
                        &&& resp.result matches Some(v) && v.deep_view() == initialize_model()
                    },
                    DecisionV::ReplyToolList { id } => {
                        &&& final(self).pending == old(self).pending
                        &&& r matches DispatchOutcome::Reply(resp)
                        &&& resp.wf()
                        &&& resp.id.deep_view() == id
                        &&& resp.result matches Some(v) && wf_tool_list(v.deep_view())
                    },
                    DecisionV::ReplyInvalidParams { id } => {
                        &&& final(self).pending == old(self).pending
                        &&& r matches DispatchOutcome::Reply(resp)
                        &&& resp.wf()
                        &&& resp.id.deep_view() == id
                        &&& resp.error matches Some(e) && e.code == CODE_INVALID_PARAMS
                            && e.message@ == "Missing params"@
                    },
                    DecisionV::ReplyMethodNotFound { id, method } => {
                        &&& final(self).pending == old(self).pending
                        &&& r matches DispatchOutcome::Reply(resp)
                        &&& resp.wf()
                        &&& resp.id.deep_view() == id
                        &&& resp.error matches Some(e) && e.code == CODE_METHOD_NOT_FOUND
                            && e.message@ == "Method not found: "@ + method
                    },
                    DecisionV::StartTool { id, tool, arguments } => {
                        &&& r matches DispatchOutcome::ToolStarted {
                            call_id: c,
                            tool: t,
                            arguments: a,
                        }
                        &&& c@ == call_id@
                        &&& t@ == tool
                        &&& a.deep_view() == arguments
                        &&& final(self).pending@ == assoc_set(
                            old(self).pending@,
                            call_id@,
                            (id, session_id@),
                        )
                    },
                }
            }),
    {
        let m = match msg {
            Some(m) => m,
            None => {
                return DispatchOutcome::NoReply;
            },
        };
        let id = match m.id {
            Some(i) => i,
            None => {
                return DispatchOutcome::NoReply;
            },
        };
        if m.method == String::from_str("initialize") {
            DispatchOutcome::Reply(JsonRpcResponse::success(id, initialize_response()))
        } else if m.method == String::from_str("notifications/initialized") {
            DispatchOutcome::NoReply
        } else if m.method == String::from_str("tools/list") {
            DispatchOutcome::Reply(JsonRpcResponse::success(id, tool_list_response()))
        } else if m.method == String::from_str("tools/call") {
            match m.params {
                None => DispatchOutcome::Reply(
                    JsonRpcResponse::error(
                        id,
                        CODE_INVALID_PARAMS,
                        String::from_str("Missing params"),
                    ),
                ),
                Some(p) => {
                    let tool: String = match p.get(&String::from_str("name")) {
                        Some(j) => match j.as_str() {
                            Some(s) => s.clone(),
                            None => String::new(),
                        },
                        None => String::new(),
                    };
                    let arguments: Json = match p.get(&String::from_str("arguments")) {
                        Some(j) => j.clone(),
                        None => Json::Obj(Vec::new()),
                    };
                    self.pending.insert(call_id.clone(), id, session_id.clone());
                    DispatchOutcome::ToolStarted { call_id, tool, arguments }
                },
            }
        } else {
            let message = String::from_str("Method not found: ").concat(m.method.as_str());
            DispatchOutcome::Reply(JsonRpcResponse::error(id, CODE_METHOD_NOT_FOUND, message))
        }
    }

    /// The application resolved a call with a result payload: the call
    /// leaves the table and the reply — the serialized payload wrapped
    /// as one text content block — goes to the originating session. A
    /// call no longer pending reports a stale completion and emits
    /// nothing: a late result after a timeout or disconnect is a no-op.
    pub fn resolve_call(&mut self, call_id: &String, result: &Json) -> (r: ResolveOutcome)
        requires
            old(self).wf(),
        ensures
            final(self).wf(),
            final(self).pending@ == assoc_remove(old(self).pending@, call_id@),
            final(self).expected_auth == old(self).expected_auth,
            final(self).connected == old(self).connected,
            final(self).notify_target == old(self).notify_target,
            final(self).sse_sessions == old(self).sse_sessions,
            match r {
                ResolveOutcome::Delivered { session_id: sid, response } => {
                    &&& assoc_get(old(self).pending@, call_id@) matches Some(entry) && sid@
                        == entry.1 && response.id.deep_view() == entry.0
                    &&& response.wf()
                    &&& response.result matches Some(v) && v.deep_view() == tool_content_model(
                        result.deep_view(),
                    )
                },
                ResolveOutcome::Stale => assoc_get(old(self).pending@, call_id@) is None,
            },
    {
        match self.pending.resolve(call_id) {
            Some(c) => {
                let content = tool_content(result);
                ResolveOutcome::Delivered {
                    session_id: c.session_id,
                    response: JsonRpcResponse::success(c.request_id, content),
                }
            },
            None => ResolveOutcome::Stale,
        }
    }

    /// The application side vanished before answering (its completion
    /// channel dropped): the call leaves the table and the originating
    /// session gets an internal error naming the lost handler.
    pub fn fail_call(&mut self, call_id: &String) -> (r: ResolveOutcome)
        requires
            old(self).wf(),
        ensures
            final(self).wf(),
            final(self).pending@ == assoc_remove(old(self).pending@, call_id@),
            final(self).expected_auth == old(self).expected_auth,
            final(self).connected == old(self).connected,
            final(self).notify_target == old(self).notify_target,
            final(self).sse_sessions == old(self).sse_sessions,
            match r {
                ResolveOutcome::Delivered { session_id: sid, response } => {
                    &&& assoc_get(old(self).pending@, call_id@) matches Some(entry) && sid@
                        == entry.1 && response.id.deep_view() == entry.0
                    &&& response.wf()
                    &&& response.error matches Some(e) && e.code == CODE_INTERNAL_ERROR
                        && e.message@ == "Tool handler disconnected"@
                },
                ResolveOutcome::Stale => assoc_get(old(self).pending@, call_id@) is None,
            },
    {
        match self.pending.resolve(call_id) {
            Some(c) => ResolveOutcome::Delivered {
                session_id: c.session_id,
                response: JsonRpcResponse::error(
                    c.request_id,
                    CODE_INTERNAL_ERROR,
                    String::from_str("Tool handler disconnected"),
                ),
            },
            None => ResolveOutcome::Stale,
        }
    }

    /// A bridge with a freshly sampled shared secret: a 32-character
    /// alphanumeric token, generated once per bridge lifetime.
    pub fn with_fresh_auth() -> (b: Bridge)
        ensures
            b.wf(),
            !b.connected,
            b.notify_target is None,
            b.sse_sessions@ == Seq::<Seq<char>>::empty(),
            b.pending@ == Seq::<(Seq<char>, (JsonV, Seq<char>))>::empty(),
            b.expected_auth@.len() == 32,
            forall|i: int|
                0 <= i < b.expected_auth@.len() ==> is_alnum_char(
                    #[trigger] b.expected_auth@[i],
                ),
    {
        Bridge::new(sample_auth_token())
    }

    /// `ws_connect` with a freshly generated session identifier:
    /// `Some(session_id)` when the session opened, `None` on rejection
    /// with the state untouched.
    pub fn ws_connect_fresh(&mut self, presented: Option<&String>) -> (r: Option<String>)
        requires
            old(self).wf(),
        ensures
            final(self).wf(),
            match r {
                Some(sid) => {
                    &&& match presented {
                        Some(t) => t@ == old(self).expected_auth@,
                        None => false,
                    }
                    &&& *final(self) == (Bridge {
                        connected: true,
                        notify_target: Some(sid),
                        ..*old(self)
                    })
                },
                None => {
                    &&& match presented {
                        Some(t) => t@ != old(self).expected_auth@,
                        None => true,
                    }
                    &&& *final(self) == *old(self)
                },
            },
    {
        let sid = fresh_id();
        let target = sid.clone();
        match self.ws_connect(presented, sid) {
            ConnectOutcome::Accepted => Some(target),
            ConnectOutcome::Rejected => None,
        }
    }

    /// `sse_connect` with a freshly generated session identifier:
    /// `Some(session_id)` when the session opened, `None` on rejection
    /// with the state untouched.
    pub fn sse_connect_fresh(&mut self, presented: Option<&String>) -> (r: Option<String>)
        requires
            old(self).wf(),
        ensures
            final(self).wf(),
            match r {
                Some(sid) => {
                    &&& match presented {
                        Some(t) => t@ == old(self).expected_auth@,
                        None => false,
                    }
                    &&& final(self).connected
                    &&& final(self).notify_target matches Some(n) && n@ == sid@
                    &&& forall|x: Seq<char>|
                        #[trigger] has_id(final(self).sse_sessions@, x) == (has_id(
                            old(self).sse_sessions@,
                            x,
                        ) || x == sid@)
                    &&& final(self).pending == old(self).pending
                    &&& final(self).expected_auth == old(self).expected_auth
                },
                None => {
                    &&& match presented {
                        Some(t) => t@ != old(self).expected_auth@,
                        None => true,
                    }
                    &&& *final(self) == *old(self)
                },
            },
    {
        let sid = fresh_id();
        let returned = sid.clone();
        match self.sse_connect(presented, sid) {
            ConnectOutcome::Accepted => Some(returned),
            ConnectOutcome::Rejected => None,
        }
    }

    /// `handle_request` with a freshly generated call identifier. The
    /// identifier of a started call is in the outcome; its response
    /// arrives through `resolve_call`, `fail_call`, or `timeout_call`.
    pub fn dispatch_message(&mut self, session_id: &String, msg: Option<JsonRpcRequest>) -> (r:
        DispatchOutcome)
        requires
            old(self).wf(),
        ensures
            final(self).wf(),
            final(self).expected_auth == old(self).expected_auth,
            final(self).connected == old(self).connected,
            final(self).notify_target == old(self).notify_target,
            final(self).sse_sessions == old(self).sse_sessions,
            ({
                let d = match msg {
                    None => DecisionV::Drop,
                    Some(m) => decision_of(m.id.deep_view(), m.method@, m.params.deep_view()),
                };
                match d {
                    DecisionV::StartTool { id, tool, arguments } => {
                        &&& r matches DispatchOutcome::ToolStarted {
                            call_id: c,
                            tool: t,
                            arguments: a,
                        }
                        &&& t@ == tool
                        &&& a.deep_view() == arguments
                        &&& final(self).pending@ == assoc_set(
                            old(self).pending@,
                            c@,
                            (id, session_id@),
                        )
                    },
                    _ => final(self).pending == old(self).pending && match d {
                        DecisionV::Drop => r is NoReply,
                        DecisionV::ReplyInitialize { id } => {
                            &&& r matches DispatchOutcome::Reply(resp)
                            &&& resp.wf()
                            &&& resp.id.deep_view() == id
                            &&& resp.result matches Some(v) && v.deep_view() == initialize_model()
                        },
                        DecisionV::ReplyToolList { id } => {
                            &&& r matches DispatchOutcome::Reply(resp)
                            &&& resp.wf()
                            &&& resp.id.deep_view() == id
                            &&& resp.result matches Some(v) && wf_tool_list(v.deep_view())
                        },
                        DecisionV::ReplyInvalidParams { id } => {
                            &&& r matches DispatchOutcome::Reply(resp)
                            &&& resp.wf()
                            &&& resp.id.deep_view() == id
                            &&& resp.error matches Some(e) && e.code == CODE_INVALID_PARAMS
                                && e.message@ == "Missing params"@
                        },
                        DecisionV::ReplyMethodNotFound { id, method } => {
                            &&& r matches DispatchOutcome::Reply(resp)
                            &&& resp.wf()
                            &&& resp.id.deep_view() == id
                            &&& resp.error matches Some(e) && e.code == CODE_METHOD_NOT_FOUND
                                && e.message@ == "Method not found: "@ + method
                        },
                        DecisionV::StartTool { .. } => false,
                    },
                }
            }),
    {
        let call_id = fresh_id();
        self.handle_request(session_id, msg, call_id)
    }

    /// The fixed response timeout fired before any completion: the call
    /// leaves the table — so a later completion reports stale and emits
    /// nothing — and the originating session gets exactly one internal
    /// error naming the timeout.
    pub fn timeout_call(&mut self, call_id: &String) -> (r: ResolveOutcome)
        requires
            old(self).wf(),
        ensures
            final(self).wf(),
            final(self).pending@ == assoc_remove(old(self).pending@, call_id@),
            final(self).expected_auth == old(self).expected_auth,
            final(self).connected == old(self).connected,
            final(self).notify_target == old(self).notify_target,
            final(self).sse_sessions == old(self).sse_sessions,
            match r {
                ResolveOutcome::Delivered { session_id: sid, response } => {
                    &&& assoc_get(old(self).pending@, call_id@) matches Some(entry) && sid@
                        == entry.1 && response.id.deep_view() == entry.0
                    &&& response.wf()
                    &&& response.error matches Some(e) && e.code == CODE_INTERNAL_ERROR
                        && e.message@ == "Tool response timeout"@
                },
                ResolveOutcome::Stale => assoc_get(old(self).pending@, call_id@) is None,
            },
    {
        match self.pending.resolve(call_id) {
            Some(c) => ResolveOutcome::Delivered {
                session_id: c.session_id,
                response: JsonRpcResponse::error(
                    c.request_id,
                    CODE_INTERNAL_ERROR,
                    String::from_str("Tool response timeout"),
                ),
            },
            None => ResolveOutcome::Stale,
        }
    }
}

} // verus!
