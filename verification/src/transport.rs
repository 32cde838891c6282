//! The transport/session engine: one logical call against the daemon, with
//! the session-token handshake and its retry budget.
//!
//! The daemon rejects a request carrying no current session token with the
//! conflict status `409` and discloses a fresh token in the reply's session
//! header; the engine installs that token and retries, which is the expected
//! handshake, not an error. Any other status ends the call: its body is
//! decoded as the response envelope. Network failure ends the call at once.
//!
//! The engine itself performs no I/O: [`Client::invoke`] is driven by a
//! script of replies, one per attempt, and reports every request it would
//! have sent; an embedding application performs the sends and feeds each
//! reply to [`classify_reply`], installing tokens exactly as the engine does.

use vstd::prelude::*;

use crate::envelope::{
    ov, Args, Method, ResponseArgs, SessionGet, SessionGetArgs, SessionGetFields, TorrentAdd,
    TorrentAddArgs, TorrentGet, TorrentGetArgs, TransmissionRequest, TransmissionResponse,
    decode_response, envelope_of, request_text,
};
use crate::RETRIES;

verus! {

broadcast use vstd::std_specs::vec::group_vec_axioms, vstd::seq::group_seq_axioms;

/// The protocol's authentication-conflict status.
pub const CONFLICT_STATUS: u16 = 409;

/// Why a call failed. The conflict status itself is never an error: it is
/// absorbed by the handshake, up to the retry budget.
#[derive(Debug, Clone, PartialEq, Eq)]
pub enum TransportError {
    /// The daemon answered with the conflict status on every attempt the
    /// budget allowed.
    AuthRetriesExhausted { method: String, attempts: usize },
    /// The network itself failed; surfaced at once, never retried.
    TransportFailure { method: String },
    /// The reply's body did not decode as the expected envelope; fatal.
    MalformedResponse { method: String, status: u16 },
}

/// What came back for one attempt.
#[derive(Debug, Clone)]
pub enum Reply {
    /// An HTTP reply: its status code, its session header if present, and
    /// its body text.
    Status { code: u16, session: Option<String>, body: String },
    /// The send itself failed.
    NetworkError,
}

/// Model of a reply.
pub enum ReplyV {
    Status { code: u16, session: Option<Seq<char>>, body: Seq<char> },
    NetworkError,
}

impl View for Reply {
    type V = ReplyV;

    open spec fn view(&self) -> ReplyV {
        match *self {
            Reply::Status { code, session, body } => ReplyV::Status {
                code,
                session: ov(session),
                body: body@,
            },
            Reply::NetworkError => ReplyV::NetworkError,
        }
    }
}

pub open spec fn replies_view(rs: Seq<Reply>) -> Seq<ReplyV> {
    rs.map_values(|r: Reply| r@)
}

/// A reply that keeps the handshake going.
pub open spec fn is_conflict(r: ReplyV) -> bool {
    r matches ReplyV::Status { code, .. } && code == CONFLICT_STATUS
}

/// The session token the engine holds before attempt `n`, starting from
/// `t0`: each conflict reply that carries a session header installs that
/// header's value; nothing else changes the token.
pub open spec fn tok_at(t0: Option<Seq<char>>, rs: Seq<ReplyV>, n: int) -> Option<Seq<char>>
    decreases n,
{
    if n <= 0 || n > rs.len() {
        t0
    } else {
        match rs[n - 1] {
            ReplyV::Status { code, session, .. } => {
                if code == CONFLICT_STATUS && session is Some {
                    session
                } else {
                    tok_at(t0, rs, n - 1)
                }
            },
            ReplyV::NetworkError => tok_at(t0, rs, n - 1),
        }
    }
}

/// The first attempt index in `[j, b)` whose reply ends the handshake loop
/// (anything but a conflict), if any.
pub open spec fn first_decisive(rs: Seq<ReplyV>, j: int, b: int) -> Option<int>
    decreases b - j,
{
    if j >= b || j >= rs.len() {
        None
    } else if !is_conflict(rs[j]) {
        Some(j)
    } else {
        first_decisive(rs, j + 1, b)
    }
}

/// How many requests a call with budget `b` sends against the replies `rs`:
/// one per attempt, through the first decisive reply.
pub open spec fn n_sends(rs: Seq<ReplyV>, b: int) -> int {
    match first_decisive(rs, 0, b) {
        Some(k) => k + 1,
        None => b,
    }
}

/// One request as the engine would send it: the token attached (none on a
/// fresh client's first attempt) and the serialized envelope.
#[derive(Debug, Clone, PartialEq, Eq)]
pub struct SentRequest {
    pub token: Option<String>,
    pub body: String,
}

/// What one reply means for the call.
pub enum ReplyStep<A> {
    /// The handshake path: install this token (when one was disclosed) and
    /// retry.
    Conflict { token: Option<String> },
    /// The call is over, successfully or not.
    Done(Result<TransmissionResponse<A>, TransportError>),
}

/// Decides what one reply means: a conflict status keeps the handshake
/// going and hands over the disclosed token; a network failure is fatal at
/// once; any other status ends the call with its decoded body, malformed
/// bodies being fatal. The daemon's `result` text is passed through
/// uninterpreted.
pub fn classify_reply<A: ResponseArgs>(m: &Method, reply: &Reply) -> (s: ReplyStep<A>)
    ensures
        match reply@ {
            ReplyV::NetworkError => s matches ReplyStep::Done(
                Err(TransportError::TransportFailure { method }),
            ) && method@ == m.spec_name(),
            ReplyV::Status { code, session, body } => {
                if code == CONFLICT_STATUS {
                    s matches ReplyStep::Conflict { token } && ov(token) == session
                } else {
                    match envelope_of(body) {
                        Some(p) => match A::spec_of_json(p.0) {
                            Some(av) => s matches ReplyStep::Done(Ok(env)) && env.arguments@ == av
                                && env.result@ == p.1,
                            None => s matches ReplyStep::Done(
                                Err(TransportError::MalformedResponse { method, status }),
                            ) && method@ == m.spec_name() && status == code,
                        },
                        None => s matches ReplyStep::Done(
                            Err(TransportError::MalformedResponse { method, status }),
                        ) && method@ == m.spec_name() && status == code,
                    }
                }
            },
        },
{
    match reply {
        Reply::NetworkError => ReplyStep::Done(
            Err(TransportError::TransportFailure { method: String::from_str(m.name()) }),
        ),
        Reply::Status { code, session, body } => {
            if *code == CONFLICT_STATUS {
                let token = match session {
                    Some(t) => Some(t.clone()),
                    None => None,
                };
                ReplyStep::Conflict { token }
            } else {
                match decode_response::<A>(body.as_str()) {
                    Some(env) => ReplyStep::Done(Ok(env)),
                    None => ReplyStep::Done(
                        Err(
                            TransportError::MalformedResponse {
                                method: String::from_str(m.name()),
                                status: *code,
                            },
                        ),
                    ),
                }
            }
        },
    }
}

/// Everything [`Client::invoke`] promises, over the models of the states
/// before and after, the method descriptor, the reply script, the outcome
/// and the log of sent requests.
pub open spec fn invoke_post<A: ResponseArgs>(
    pre: Client,
    post: Client,
    m: Method,
    args: Option<Args>,
    rv: Seq<ReplyV>,
    res: Result<TransmissionResponse<A>, TransportError>,
    sends: Seq<SentRequest>,
) -> bool {
    let t0 = ov(pre.session_id);
    let b = pre.retries as int;
    let fd = first_decisive(rv, 0, b);
    let ns = n_sends(rv, b);
    &&& sends.len() == ns
    &&& forall|k: int| 0 <= k < ns ==> ov((#[trigger] sends[k]).token) == tok_at(t0, rv, k)
    &&& forall|k: int| 0 <= k < ns ==> (#[trigger] sends[k]).body@ == request_text(m, args)
    &&& ov(post.session_id) == tok_at(t0, rv, ns)
    &&& post.url == pre.url
    &&& post.retries == pre.retries
    &&& match res {
        Ok(env) => {
            &&& fd is Some
            &&& rv[fd.unwrap()] matches ReplyV::Status { code, body, .. } && code
                != CONFLICT_STATUS && envelope_of(body) is Some && A::spec_of_json(
                envelope_of(body).unwrap().0,
            ) == Some(env.arguments@) && env.result@ == envelope_of(body).unwrap().1
        },
        Err(TransportError::AuthRetriesExhausted { method, attempts }) => {
            &&& fd is None
            &&& attempts == pre.retries
            &&& method@ == m.spec_name()
        },
        Err(TransportError::TransportFailure { method }) => {
            &&& fd is Some
            &&& rv[fd.unwrap()] is NetworkError
            &&& method@ == m.spec_name()
        },
        Err(TransportError::MalformedResponse { method, status }) => {
            &&& fd is Some
            &&& rv[fd.unwrap()] matches ReplyV::Status { code, body, .. } && code
                != CONFLICT_STATUS && status == code && (envelope_of(body) is None
                || A::spec_of_json(envelope_of(body).unwrap().0) is None)
            &&& method@ == m.spec_name()
        },
    }
}

/// A client handle: the daemon's RPC endpoint, the current session token,
/// and the retry budget for the handshake.
#[derive(Debug, Clone)]
pub struct Client {
    /// The daemon's RPC endpoint.
    pub url: String,
    /// The current session token; `None` until the first handshake.
    pub session_id: Option<String>,
    /// The retry budget; [`RETRIES`] by default, overridable per client.
    pub retries: usize,
}

impl Client {
    /// A fresh client for the given endpoint: no token yet, the default
    /// retry budget.
    pub fn new(url: &str) -> (c: Client)
        ensures
            c.url@ == url@,
            c.session_id is None,
            c.retries == RETRIES,
    {
        Client { url: String::from_str(url), session_id: None, retries: RETRIES }
    }

    /// Executes one logical call against the reply script `replies`, one
    /// reply per attempt; the script must cover the whole retry budget,
    /// though replies past the first decisive one are never read. Returns
    /// the outcome together with every request the engine sent, per
    /// [`invoke_post`].
    pub fn invoke<A: ResponseArgs>(
        &mut self,
        request: &TransmissionRequest,
        replies: &Vec<Reply>,
    ) -> (out: (Result<TransmissionResponse<A>, TransportError>, Vec<SentRequest>))
        requires
            replies@.len() >= old(self).retries,
        ensures
            invoke_post(
                *old(self),
                *final(self),
                request.method,
                request.arguments,
                replies_view(replies@),
                out.0,
                out.1@,
            ),
    {
        let body_text = request.encode();
        let mut sends: Vec<SentRequest> = Vec::new();
        let mut attempt: usize = 0;
        let b = self.retries;
        let ghost t0 = ov(self.session_id);
        let ghost rv = replies_view(replies@);
        while attempt < b
            invariant
                b == self.retries,
                self.retries == old(self).retries,
                self.url == old(self).url,
                replies@.len() >= b,
                rv == replies_view(replies@),
                rv.len() == replies@.len(),
                t0 == ov(old(self).session_id),
                body_text@ == request_text(request.method, request.arguments),
                attempt <= b,
                sends@.len() == attempt,
                forall|k: int|
                    0 <= k < attempt ==> ov((#[trigger] sends@[k]).token) == tok_at(t0, rv, k),
                forall|k: int|
                    0 <= k < attempt ==> (#[trigger] sends@[k]).body@ == request_text(
                        request.method,
                        request.arguments,
                    ),
                ov(self.session_id) == tok_at(t0, rv, attempt as int),
                first_decisive(rv, 0, b as int) == first_decisive(rv, attempt as int, b as int),
            decreases b - attempt,
        {
            let token_now: Option<String> = match &self.session_id {
                Some(t) => Some(t.clone()),
                None => None,
            };
            sends.push(SentRequest { token: token_now, body: body_text.clone() });
            let reply = &replies[attempt];
            proof {
                assert(rv[attempt as int] == replies@[attempt as int]@);
            }
            match classify_reply::<A>(&request.method, reply) {
                ReplyStep::Conflict { token } => {
                    proof {
                        assert(is_conflict(rv[attempt as int]));
                    }
                    match token {
                        Some(t) => {
                            self.session_id = Some(t);
                        },
                        None => {},
                    }
                    attempt = attempt + 1;
                },
                ReplyStep::Done(r) => {
                    proof {
                        assert(!is_conflict(rv[attempt as int]));
                        assert(first_decisive(rv, attempt as int, b as int) == Some(
                            attempt as int,
                        ));
                    }
                    return (r, sends);
                },
            }
        }
        (
            Err(
                TransportError::AuthRetriesExhausted {
                    method: String::from_str(request.method.name()),
                    attempts: b,
                },
            ),
            sends,
        )
    }

    /// Queries session information: the `session-get` method, with the
    /// fields asked for.
    pub fn session_get(
        &mut self,
        fields: Option<Vec<SessionGetFields>>,
        replies: &Vec<Reply>,
    ) -> (out: (Result<TransmissionResponse<SessionGet>, TransportError>, Vec<SentRequest>))
        requires
            replies@.len() >= old(self).retries,
        ensures
            invoke_post(
                *old(self),
                *final(self),
                Method::SessionGet,
                Some(Args::SessionGet(SessionGetArgs { fields })),
                replies_view(replies@),
                out.0,
                out.1@,
            ),
    {
        let request = TransmissionRequest {
            method: Method::SessionGet,
            arguments: Some(Args::SessionGet(SessionGetArgs { fields })),
        };
        self.invoke::<SessionGet>(&request, replies)
    }

    /// Adds a torrent: the `torrent-add` method.
    pub fn torrent_add(&mut self, args: TorrentAddArgs, replies: &Vec<Reply>) -> (out: (
        Result<TransmissionResponse<TorrentAdd>, TransportError>,
        Vec<SentRequest>,
    ))
        requires
            replies@.len() >= old(self).retries,
        ensures
            invoke_post(
                *old(self),
                *final(self),
                Method::TorrentAdd,
                Some(Args::TorrentAdd(args)),
                replies_view(replies@),
                out.0,
                out.1@,
            ),
    {
        let request = TransmissionRequest {
            method: Method::TorrentAdd,
            arguments: Some(Args::TorrentAdd(args)),
        };
        self.invoke::<TorrentAdd>(&request, replies)
    }

    /// Lists torrent state: the `torrent-get` method.
    pub fn torrent_get(&mut self, args: TorrentGetArgs, replies: &Vec<Reply>) -> (out: (
        Result<TransmissionResponse<TorrentGet>, TransportError>,
        Vec<SentRequest>,
    ))
        requires
            replies@.len() >= old(self).retries,
        ensures
            invoke_post(
                *old(self),
                *final(self),
                Method::TorrentGet,
                Some(Args::TorrentGet(args)),
                replies_view(replies@),
                out.0,
                out.1@,
            ),
    {
        let request = TransmissionRequest {
            method: Method::TorrentGet,
            arguments: Some(Args::TorrentGet(args)),
        };
        self.invoke::<TorrentGet>(&request, replies)
    }
}

// ---------------------------------------------------------------------------
// Laws of the handshake.
// ---------------------------------------------------------------------------
/// Law: a fresh client attaches no token to its very first request; when the
/// first reply is a conflict disclosing a token and the second reply is
/// decisive, the one retry attaches exactly that token and the call sends
/// exactly two requests.
pub proof fn lemma_fresh_client_handshake(rv: Seq<ReplyV>, b: int, tok: Seq<char>)
    requires
        b >= 2,
        rv.len() >= b,
        rv[0] matches ReplyV::Status { code, session, .. } && code == CONFLICT_STATUS && session
            == Some(tok),
        !is_conflict(rv[1]),
    ensures
        tok_at(None, rv, 0) == None::<Seq<char>>,
        tok_at(None, rv, 1) == Some(tok),
        first_decisive(rv, 0, b) == Some(1int),
        n_sends(rv, b) == 2,
{
    assert(first_decisive(rv, 1, b) == Some(1int));
}

/// Law: when every reply within the budget `b` is a conflict, no attempt is
/// decisive and the call sends exactly `b` requests; under
/// [`invoke_post`] the outcome is then the exhausted-retries error.
pub proof fn lemma_all_conflicts_exhausts(rv: Seq<ReplyV>, b: int)
    requires
        b >= 0,
        rv.len() >= b,
        forall|k: int| 0 <= k < b ==> is_conflict(#[trigger] rv[k]),
    ensures
        first_decisive(rv, 0, b) is None,
        n_sends(rv, b) == b,
{
    lemma_all_conflicts_from(rv, 0, b);
}

proof fn lemma_all_conflicts_from(rv: Seq<ReplyV>, j: int, b: int)
    requires
        0 <= j <= b,
        rv.len() >= b,
        forall|k: int| j <= k < b ==> is_conflict(#[trigger] rv[k]),
    ensures
        first_decisive(rv, j, b) is None,
    decreases b - j,
{
    if j < b {
        lemma_all_conflicts_from(rv, j + 1, b);
    }
}

/// Law: a first reply that is no conflict ends the call at once: the call
/// sends exactly one request, and under [`invoke_post`] the outcome is
/// decided by that reply alone — for a body that denotes no envelope, the
/// malformed-response error, with no retry.
pub proof fn lemma_first_reply_decides(rv: Seq<ReplyV>, b: int)
    requires
        b >= 1,
        rv.len() >= b,
        !is_conflict(rv[0]),
    ensures
        first_decisive(rv, 0, b) == Some(0int),
        n_sends(rv, b) == 1,
{
}

/// Law: once attempt `n`'s conflict reply disclosed a token, the engine
/// holds exactly that token before attempt `n + 1` — the retried send reads
/// the installed token, never an older one.
pub proof fn lemma_installed_token_used(
    t0: Option<Seq<char>>,
    rv: Seq<ReplyV>,
    n: int,
    tok: Seq<char>,
)
    requires
        0 <= n < rv.len(),
        rv[n] matches ReplyV::Status { code, session, .. } && code == CONFLICT_STATUS && session
            == Some(tok),
    ensures
        tok_at(t0, rv, n + 1) == Some(tok),
{
}

/// Law: the token held before any attempt is the one disclosed by the most
/// recent conflict reply that carried a session header, or the starting
/// token when none did: later attempts never fall back to an older token.
pub proof fn lemma_token_is_latest(t0: Option<Seq<char>>, rv: Seq<ReplyV>, n: int, w: int)
    requires
        0 <= w < n <= rv.len(),
        rv[w] matches ReplyV::Status { code, session, .. } && code == CONFLICT_STATUS && session
            is Some,
        forall|k: int|
            w < k < n ==> !(#[trigger] rv[k] matches ReplyV::Status { code, session, .. } && code
                == CONFLICT_STATUS && session is Some),
    ensures
        tok_at(t0, rv, n) == rv[w]->Status_session,
    decreases n,
{
    if n - 1 > w {
        lemma_token_is_latest(t0, rv, n - 1, w);
    }
}

} // verus!
