use vstd::prelude::*;
use crate::error::MinerError;
use crate::hexcode::{hex_encode, hex_text};
use crate::search::be_bytes;
use crate::job::{
    MiningJob, Subscription, decode_notify, decodes_to, job_fields_present, notify_params,
    parse_subscription, subscription_of,
};
use crate::json::{JsonValue, json_of, json_text, json_text_of};

verus! {

/// The method name that marks a job notification.
pub open spec fn notify_marker() -> Seq<u8> {
    seq![109u8, 105, 110, 105, 110, 103, 46, 110, 111, 116, 105, 102, 121]
}

/// The needle occurs in the haystack at position `i`.
pub open spec fn occurs_at(hay: Seq<u8>, needle: Seq<u8>, i: int) -> bool {
    0 <= i && i + needle.len() <= hay.len() && hay.subrange(i, i + needle.len()) == needle
}

/// `i` is the first position at which the needle occurs.
pub open spec fn first_occurrence(hay: Seq<u8>, needle: Seq<u8>, i: int) -> bool {
    occurs_at(hay, needle, i) && forall|j: int| 0 <= j < i ==> !#[trigger] occurs_at(hay, needle, j)
}

/// The start of the line holding position `i`.
pub open spec fn line_start(hay: Seq<u8>, i: int) -> int
    decreases i,
{
    if i <= 0 {
        0
    } else if hay[i - 1] == 10 {
        i
    } else {
        line_start(hay, i - 1)
    }
}

/// The end (the newline, or the end of the text) of the line holding `i`.
pub open spec fn line_end(hay: Seq<u8>, i: int) -> int
    decreases hay.len() - i,
{
    if i >= hay.len() {
        hay.len() as int
    } else if hay[i] == 10 {
        i
    } else {
        line_end(hay, i + 1)
    }
}

/// The line holding position `i`, without its newline.
pub open spec fn line_around(hay: Seq<u8>, i: int) -> Seq<u8> {
    hay.subrange(line_start(hay, i), line_end(hay, i))
}

proof fn lemma_line_bounds_end(hay: Seq<u8>, i: int)
    requires
        0 <= i <= hay.len(),
    ensures
        i <= line_end(hay, i) <= hay.len(),
    decreases hay.len() - i,
{
    if i < hay.len() && hay[i] != 10 {
        lemma_line_bounds_end(hay, i + 1);
    }
}

fn occurs_here(hay: &Vec<u8>, needle: &Vec<u8>, i: usize) -> (r: bool)
    requires
        i + needle@.len() <= hay@.len(),
    ensures
        r == occurs_at(hay@, needle@, i as int),
{
    let n = hay.len();
    let mut k: usize = 0;
    while k < needle.len()
        invariant
            n == hay@.len(),
            k <= needle@.len(),
            i + needle@.len() <= hay@.len(),
            forall|j: int| 0 <= j < k ==> hay@[i + j] == needle@[j],
        decreases needle@.len() - k,
    {
        if hay[i + k] != needle[k] {
            assert(hay@.subrange(i as int, i + needle@.len())[k as int] != needle@[k as int]);
            return false;
        }
        k = k + 1;
    }
    assert(hay@.subrange(i as int, i + needle@.len()) =~= needle@);
    true
}

/// The first position of the needle in the haystack, if it occurs.
pub fn find_first(hay: &Vec<u8>, needle: &Vec<u8>) -> (r: Option<usize>)
    ensures
        r matches Some(i) ==> first_occurrence(hay@, needle@, i as int),
        r is None ==> forall|j: int| !#[trigger] occurs_at(hay@, needle@, j),
{
    if needle.len() > hay.len() {
        return None;
    }
    let last = hay.len() - needle.len();
    let mut i: usize = 0;
    while i <= last
        invariant
            last + needle@.len() == hay@.len(),
            i <= last + 1,
            forall|j: int| 0 <= j < i ==> !#[trigger] occurs_at(hay@, needle@, j),
        decreases last + 1 - i,
    {
        if occurs_here(hay, needle, i) {
            return Some(i);
        }
        if i == last {
            return None;
        }
        i = i + 1;
    }
    None
}

fn marker() -> (r: Vec<u8>)
    ensures
        r@ == notify_marker(),
{
    let r: Vec<u8> = vec![109u8, 105, 110, 105, 110, 103, 46, 110, 111, 116, 105, 102, 121];
    assert(r@ =~= notify_marker());
    r
}

fn copy_range(hay: &Vec<u8>, from: usize, to: usize) -> (r: Vec<u8>)
    requires
        from <= to <= hay@.len(),
    ensures
        r@ == hay@.subrange(from as int, to as int),
{
    let mut out: Vec<u8> = Vec::new();
    let mut k: usize = from;
    while k < to
        invariant
            from <= k <= to,
            to <= hay@.len(),
            out@ == hay@.subrange(from as int, k as int),
        decreases to - k,
    {
        out.push(hay[k]);
        k = k + 1;
        assert(out@ =~= hay@.subrange(from as int, k as int));
    }
    out
}

/// The line of a text that holds position `i`, without its newline.
pub fn line_at(hay: &Vec<u8>, i: usize) -> (r: Vec<u8>)
    requires
        i <= hay@.len(),
    ensures
        r@ == line_around(hay@, i as int),
{
    let mut start: usize = i;
    while start > 0 && hay[start - 1] != 10
        invariant
            start <= i <= hay@.len(),
            line_start(hay@, start as int) == line_start(hay@, i as int),
        decreases start,
    {
        start = start - 1;
    }
    let mut end: usize = i;
    while end < hay.len() && hay[end] != 10
        invariant
            i <= end <= hay@.len(),
            line_end(hay@, end as int) == line_end(hay@, i as int),
        decreases hay@.len() - end,
    {
        end = end + 1;
    }
    copy_range(hay, start, end)
}

/// A request to the pool; its wire form is a JSON line.
#[derive(Debug, Clone)]
pub enum Request {
    /// `mining.subscribe`, id 1, no parameters.
    Subscribe,
    /// `mining.authorize`, id 2, with the address and a fixed password.
    Authorize { address: String },
    /// `mining.submit`, id 1, with the solution's fields.
    Submit { address: String, job_id: String, extranonce2: String, ntime: String, nonce: String },
}

/// A string value with the given text.
pub open spec fn text_value(v: JsonValue, t: Seq<char>) -> bool {
    v matches JsonValue::Str(s) && s@ == t
}

/// The id a request is sent with.
pub open spec fn request_id(r: Request) -> u64 {
    match r {
        Request::Authorize { .. } => 2,
        _ => 1,
    }
}

/// The method name of a request.
pub open spec fn request_method(r: Request) -> Seq<char> {
    match r {
        Request::Subscribe => "mining.subscribe"@,
        Request::Authorize { .. } => "mining.authorize"@,
        Request::Submit { .. } => "mining.submit"@,
    }
}

/// The positional parameters of a request, all strings.
pub open spec fn request_params(r: Request) -> Seq<Seq<char>> {
    match r {
        Request::Subscribe => seq![],
        Request::Authorize { address } => seq![address@, "password"@],
        Request::Submit { address, job_id, extranonce2, ntime, nonce } => seq![
            address@,
            job_id@,
            extranonce2@,
            ntime@,
            nonce@,
        ],
    }
}

/// A list of string values with the given texts.
pub open spec fn texts_value(v: JsonValue, ts: Seq<Seq<char>>) -> bool {
    match v {
        JsonValue::Array(a) => a@.len() == ts.len() && forall|i: int|
            0 <= i < ts.len() ==> #[trigger] text_value(a@[i], ts[i]),
        _ => false,
    }
}

/// The JSON object of a request: its id, its method and its parameters.
pub open spec fn is_request_value(v: JsonValue, r: Request) -> bool {
    match v {
        JsonValue::Object(e) => {
            &&& e@.len() == 3
            &&& e@[0].0@ == "id"@
            &&& e@[0].1 == JsonValue::Number(Some(request_id(r)))
            &&& e@[1].0@ == "method"@
            &&& text_value(e@[1].1, request_method(r))
            &&& e@[2].0@ == "params"@
            &&& texts_value(e@[2].1, request_params(r))
        },
        _ => false,
    }
}

fn text(t: &str) -> (r: JsonValue)
    ensures
        text_value(r, t@),
{
    JsonValue::Str(t.to_owned())
}

/// The JSON object of a request.
pub fn request_value(r: &Request) -> (v: JsonValue)
    ensures
        is_request_value(v, *r),
{
    let (id, method, params): (u64, &str, Vec<JsonValue>) = match r {
        Request::Subscribe => (1, "mining.subscribe", Vec::new()),
        Request::Authorize { address } => (
            2,
            "mining.authorize",
            vec![JsonValue::Str(address.clone()), text("password")],
        ),
        Request::Submit { address, job_id, extranonce2, ntime, nonce } => (
            1,
            "mining.submit",
            vec![
                JsonValue::Str(address.clone()),
                JsonValue::Str(job_id.clone()),
                JsonValue::Str(extranonce2.clone()),
                JsonValue::Str(ntime.clone()),
                JsonValue::Str(nonce.clone()),
            ],
        ),
    };
    proof {
        assert(params@.len() == request_params(*r).len());
    }
    JsonValue::Object(
        vec![
            ("id".to_owned(), JsonValue::Number(Some(id))),
            ("method".to_owned(), text(method)),
            ("params".to_owned(), JsonValue::Array(params)),
        ],
    )
}

/// The wire form of a request: its JSON text and a newline.
pub fn request_line(r: &Request) -> (s: String)
    ensures
        exists|v: JsonValue| is_request_value(v, *r) && s@ == json_text_of(v) + "\n"@,
{
    let v = request_value(r);
    let mut s = json_text(&v);
    s.append("\n");
    s
}

/// Where the handshake with the pool stands.
#[derive(Debug, Clone)]
pub enum SessionState {
    /// Not yet connected.
    Connecting,
    /// The subscription is sent; its answer is awaited.
    AwaitingSubscribeResult,
    /// Authorized; everything read since is kept until a job arrives.
    AwaitingJob { subscription: Subscription, received: Vec<u8> },
    /// The handshake is over, with a job or a failure.
    Closed,
}

/// What happened at the connection.
#[derive(Debug, Clone)]
pub enum SessionEvent {
    /// The connection is open.
    Connected,
    /// A read returned these bytes; none means the pool closed the connection.
    Received(Vec<u8>),
}

/// What the connection should do next.
#[derive(Debug, Clone)]
pub enum SessionAction {
    /// Write the request, then read.
    SendThenRead(Request),
    /// Read more.
    Read,
    /// The job is ready: mine it.
    Mine { subscription: Subscription, job: MiningJob },
    /// The session ends with this failure.
    Fail(MinerError),
}

/// The first line of a text, without its newline.
pub open spec fn first_line(text: Seq<u8>) -> Seq<u8> {
    text.subrange(0, line_end(text, 0))
}

/// One step of the handshake: from the state and what happened, the next
/// state and what to do.
pub fn session_step(state: SessionState, event: SessionEvent, address: &String) -> (r: (
    SessionState,
    SessionAction,
))
    ensures
        (state, event) matches (SessionState::Connecting, SessionEvent::Connected) ==> (r.0
            is AwaitingSubscribeResult && r.1 == SessionAction::SendThenRead(Request::Subscribe)),
        (state, event) matches (SessionState::AwaitingSubscribeResult, SessionEvent::Received(chunk))
            ==> {
            let answer = match json_of(first_line(chunk@)) {
                Some(v) => subscription_of(v),
                None => None,
            };
            if answer is Some {
                &&& r.0 matches SessionState::AwaitingJob { subscription, received } && received@
                    == Seq::<u8>::empty() && answer == Some(
                    (subscription.extranonce1@, subscription.extranonce2_size),
                )
                &&& r.1 matches SessionAction::SendThenRead(Request::Authorize { address: a }) && a
                    == *address
            } else {
                r.0 is Closed && r.1 == SessionAction::Fail(MinerError::Protocol)
            }
        },
        (state, event) matches (
            SessionState::AwaitingJob { subscription, received },
            SessionEvent::Received(chunk),
        ) ==> {
            let all = received@ + chunk@;
            if chunk@.len() == 0 {
                r.0 is Closed && r.1 == SessionAction::Fail(MinerError::ConnectionClosed)
            } else if exists|i: int| occurs_at(all, notify_marker(), i) {
                &&& r.0 is Closed
                &&& exists|i: int|
                    first_occurrence(all, notify_marker(), i) && {
                        let params = notify_params(line_around(all, i));
                        if job_fields_present(params) {
                            r.1 matches SessionAction::Mine { subscription: s, job } && s
                                == subscription && decodes_to(job, params)
                        } else {
                            r.1 == SessionAction::Fail(MinerError::Protocol)
                        }
                    }
            } else {
                r.0 matches SessionState::AwaitingJob { subscription: s, received: kept } && s
                    == subscription && kept@ == all && r.1 == SessionAction::Read
            }
        },
        !((state, event) matches (SessionState::Connecting, SessionEvent::Connected)) && !((
            state,
            event,
        ) matches (SessionState::AwaitingSubscribeResult, SessionEvent::Received(_))) && !((
            state,
            event,
        ) matches (SessionState::AwaitingJob { .. }, SessionEvent::Received(_))) ==> r.0 is Closed
            && r.1 == SessionAction::Fail(MinerError::Protocol),
{
    match (state, event) {
        (SessionState::Connecting, SessionEvent::Connected) => (
            SessionState::AwaitingSubscribeResult,
            SessionAction::SendThenRead(Request::Subscribe),
        ),
        (SessionState::AwaitingSubscribeResult, SessionEvent::Received(chunk)) => {
            proof {
                lemma_line_bounds_end(chunk@, 0);
            }
            let line = line_at(&chunk, 0);
            assert(line@ == first_line(chunk@));
            match parse_subscription(line.as_slice()) {
                Ok(subscription) => (
                    SessionState::AwaitingJob { subscription, received: Vec::new() },
                    SessionAction::SendThenRead(Request::Authorize { address: address.clone() }),
                ),
                Err(e) => (SessionState::Closed, SessionAction::Fail(e)),
            }
        },
        (SessionState::AwaitingJob { subscription, received }, SessionEvent::Received(chunk)) => {
            if chunk.len() == 0 {
                return (SessionState::Closed, SessionAction::Fail(MinerError::ConnectionClosed));
            }
            let mut all = received;
            let mut more = chunk;
            all.append(&mut more);
            let needle = marker();
            match find_first(&all, &needle) {
                Some(i) => {
                    let line = line_at(&all, i);
                    match decode_notify(line.as_slice()) {
                        Ok(job) => (SessionState::Closed, SessionAction::Mine { subscription, job }),
                        Err(e) => (SessionState::Closed, SessionAction::Fail(e)),
                    }
                },
                None => (SessionState::AwaitingJob { subscription, received: all }, SessionAction::Read),
            }
        },
        _ => (SessionState::Closed, SessionAction::Fail(MinerError::Protocol)),
    }
}

/// The nonce as 8 lower-case hex digits, most significant first.
pub fn nonce_hex(nonce: u32) -> (r: String)
    ensures
        r@ == hex_text(be_bytes(nonce)),
{
    let bytes: Vec<u8> = vec![
        (nonce / 0x1000000) as u8,
        (nonce / 0x10000 % 256) as u8,
        (nonce / 0x100 % 256) as u8,
        (nonce % 256) as u8,
    ];
    assert(bytes@ =~= be_bytes(nonce));
    hex_encode(bytes.as_slice())
}

/// Relies on rand's thread-local generator: four random bytes.
#[verifier::external_body]
fn random_bytes() -> (r: Vec<u8>)
    ensures
        r@.len() == 4,
{
    let bytes: [u8; 4] = rand::Rng::gen(&mut rand::thread_rng());
    bytes.to_vec()
}

/// A fresh extranonce2: four random bytes as 8 lower-case hex digits.
pub fn new_extranonce2() -> (r: String)
    ensures
        exists|b: Seq<u8>| b.len() == 4 && r@ == hex_text(b),
{
    let bytes = random_bytes();
    hex_encode(bytes.as_slice())
}

/// The submission of a solution: address, job id, extranonce2, ntime and the
/// nonce as hex.
pub fn submit_request(address: &String, job: &MiningJob, extranonce2: &String, nonce: u32) -> (r:
    Request)
    ensures
        r matches Request::Submit { address: a, job_id, extranonce2: e, ntime, nonce: n } && a
            == *address && job_id == job.job_id && e == *extranonce2 && ntime == job.ntime && n@
            == hex_text(be_bytes(nonce)),
{
    Request::Submit {
        address: address.clone(),
        job_id: job.job_id.clone(),
        extranonce2: extranonce2.clone(),
        ntime: job.ntime.clone(),
        nonce: nonce_hex(nonce),
    }
}

/// The pause before a new session: a fixed 100 ms after a failed one, none
/// after one that ended normally.
pub fn restart_pause_ms(failed: bool) -> (r: u64)
    ensures
        r == (if failed {
            100u64
        } else {
            0u64
        }),
{
    if failed {
        100
    } else {
        0
    }
}

} // verus!
