use vstd::prelude::*;
use crate::error::MinerError;
use crate::json::{
    JsonValue, element, element_of, field, field_of, json_of, parse_json, text_of, u64_of,
};

verus! {

/// One unit of work from the pool, as its `mining.notify` message gives it.
#[derive(Debug, Clone)]
pub struct MiningJob {
    pub job_id: String,
    pub prevhash: String,
    pub coinb1: String,
    pub coinb2: String,
    pub merkle_branch: Vec<String>,
    pub version: String,
    pub nbits: String,
    pub ntime: String,
    pub clean_jobs: bool,
}

/// What the pool answers to the subscription.
#[derive(Debug, Clone)]
pub struct Subscription {
    pub extranonce1: String,
    pub extranonce2_size: u64,
}

/// The text of the string at position `i` of the parameters, if it is one.
pub open spec fn param_text(params: Seq<JsonValue>, i: int) -> Option<Seq<char>> {
    if 0 <= i < params.len() {
        text_of(Some(params[i]))
    } else {
        None
    }
}

/// The parameters hold all eight mandatory fields: nine or more positions,
/// strings at positions 0 to 3 and 5 to 7.
pub open spec fn job_fields_present(params: Seq<JsonValue>) -> bool {
    &&& params.len() >= 9
    &&& param_text(params, 0) is Some
    &&& param_text(params, 1) is Some
    &&& param_text(params, 2) is Some
    &&& param_text(params, 3) is Some
    &&& param_text(params, 5) is Some
    &&& param_text(params, 6) is Some
    &&& param_text(params, 7) is Some
}

/// The merkle branch texts: each string of a list, with `""` for an element
/// that is not a string; nothing where the value is not a list.
pub open spec fn branch_texts(v: JsonValue) -> Seq<Seq<char>> {
    match v {
        JsonValue::Array(a) => a@.map_values(
            |x: JsonValue|
                match x {
                    JsonValue::Str(s) => s@,
                    _ => Seq::<char>::empty(),
                },
        ),
        _ => Seq::empty(),
    }
}

/// The `clean_jobs` flag: the value where it is a boolean, else false.
pub open spec fn clean_flag(v: JsonValue) -> bool {
    match v {
        JsonValue::Bool(b) => b,
        _ => false,
    }
}

/// The job decoded from parameters that hold all mandatory fields.
pub open spec fn decodes_to(job: MiningJob, params: Seq<JsonValue>) -> bool {
    &&& Some(job.job_id@) == param_text(params, 0)
    &&& Some(job.prevhash@) == param_text(params, 1)
    &&& Some(job.coinb1@) == param_text(params, 2)
    &&& Some(job.coinb2@) == param_text(params, 3)
    &&& job.merkle_branch@.map_values(|s: String| s@) == branch_texts(params[4])
    &&& Some(job.version@) == param_text(params, 5)
    &&& Some(job.nbits@) == param_text(params, 6)
    &&& Some(job.ntime@) == param_text(params, 7)
    &&& job.clean_jobs == clean_flag(params[8])
}

/// The parameters of a `mining.notify` message: the `params` list of the
/// parsed line, or nothing where it is absent or not a list.
pub open spec fn notify_params(line: Seq<u8>) -> Seq<JsonValue> {
    match json_of(line) {
        Some(v) => match field_of(v, "params"@) {
            Some(JsonValue::Array(a)) => a@,
            _ => Seq::empty(),
        },
        None => Seq::empty(),
    }
}

fn text_param(params: &Vec<JsonValue>, i: usize) -> (r: Result<String, MinerError>)
    ensures
        r matches Ok(s) ==> param_text(params@, i as int) == Some(s@),
        r is Err ==> param_text(params@, i as int) is None && r->Err_0 == MinerError::Protocol,
{
    if i < params.len() {
        match &params[i] {
            JsonValue::Str(s) => Ok(s.clone()),
            _ => Err(MinerError::Protocol),
        }
    } else {
        Err(MinerError::Protocol)
    }
}

fn branch_of(v: &JsonValue) -> (r: Vec<String>)
    ensures
        r@.map_values(|s: String| s@) == branch_texts(*v),
{
    let mut out: Vec<String> = Vec::new();
    match v {
        JsonValue::Array(a) => {
            let mut i: usize = 0;
            while i < a.len()
                invariant
                    i <= a@.len(),
                    *v == JsonValue::Array(*a),
                    out@.len() == i,
                    forall|j: int| 0 <= j < i ==> #[trigger] out@[j]@ == branch_texts(*v)[j],
                decreases a@.len() - i,
            {
                let text = match &a[i] {
                    JsonValue::Str(s) => s.clone(),
                    _ => String::new(),
                };
                out.push(text);
                assert(text@ == branch_texts(*v)[i as int]);
                i = i + 1;
            }
            assert(out@.map_values(|s: String| s@) =~= branch_texts(*v));
            out
        },
        _ => {
            assert(out@.map_values(|s: String| s@) =~= branch_texts(*v));
            out
        },
    }
}

/// Decodes the positional parameters of a `mining.notify` message. Fewer
/// than nine, or a missing or non-string mandatory field, is a protocol
/// error; a merkle branch that is not a list is empty, and a `clean_jobs`
/// that is not a boolean is false.
pub fn decode_job(params: &Vec<JsonValue>) -> (r: Result<MiningJob, MinerError>)
    ensures
        r is Ok <==> job_fields_present(params@),
        r matches Ok(job) ==> decodes_to(job, params@),
        r is Err ==> r->Err_0 == MinerError::Protocol,
{
    if params.len() < 9 {
        return Err(MinerError::Protocol);
    }
    let job_id = text_param(params, 0)?;
    let prevhash = text_param(params, 1)?;
    let coinb1 = text_param(params, 2)?;
    let coinb2 = text_param(params, 3)?;
    let version = text_param(params, 5)?;
    let nbits = text_param(params, 6)?;
    let ntime = text_param(params, 7)?;
    let merkle_branch = branch_of(&params[4]);
    let clean_jobs = match &params[8] {
        JsonValue::Bool(b) => *b,
        _ => false,
    };
    Ok(MiningJob { job_id, prevhash, coinb1, coinb2, merkle_branch, version, nbits, ntime, clean_jobs })
}

/// Decodes the job of one `mining.notify` line.
pub fn decode_notify(line: &[u8]) -> (r: Result<MiningJob, MinerError>)
    ensures
        r is Ok <==> job_fields_present(notify_params(line@)),
        r matches Ok(job) ==> decodes_to(job, notify_params(line@)),
        r is Err ==> r->Err_0 == MinerError::Protocol,
{
    let parsed = parse_json(line);
    match parsed {
        Some(v) => match field(&v, "params") {
            Some(JsonValue::Array(a)) => decode_job(a),
            _ => {
                let empty: Vec<JsonValue> = Vec::new();
                decode_job(&empty)
            },
        },
        None => Err(MinerError::Protocol),
    }
}

/// The subscription answer of a parsed message: `result[1]` must be a
/// string, `result[2]` is the extranonce2 size where it is a `u64`, else 0.
pub open spec fn subscription_of(v: JsonValue) -> Option<(Seq<char>, u64)> {
    let result = field_of(v, "result"@);
    let first = match result {
        Some(x) => element_of(x, 1),
        None => None,
    };
    let second = match result {
        Some(x) => element_of(x, 2),
        None => None,
    };
    match text_of(first) {
        Some(t) => Some((
            t,
            match u64_of(second) {
                Some(n) => n,
                None => 0,
            },
        )),
        None => None,
    }
}

/// Reads the extranonce1 and the extranonce2 size from the pool's answer to
/// the subscription.
pub fn parse_subscription(line: &[u8]) -> (r: Result<Subscription, MinerError>)
    ensures
        r is Ok <==> (json_of(line@) matches Some(v) && subscription_of(v) is Some),
        r matches Ok(s) ==> (json_of(line@) matches Some(v) && subscription_of(v) == Some(
            (s.extranonce1@, s.extranonce2_size),
        )),
        r is Err ==> r->Err_0 == MinerError::Protocol,
{
    let parsed = parse_json(line);
    match parsed {
        Some(v) => {
            let result = field(&v, "result");
            let (first, second) = match result {
                Some(x) => (element(x, 1), element(x, 2)),
                None => (None, None),
            };
            let extranonce1 = match first {
                Some(JsonValue::Str(s)) => s.clone(),
                _ => {
                    return Err(MinerError::Protocol);
                },
            };
            let extranonce2_size = match second {
                Some(JsonValue::Number(Some(n))) => *n,
                _ => 0,
            };
            Ok(Subscription { extranonce1, extranonce2_size })
        },
        None => Err(MinerError::Protocol),
    }
}

/// The network height in a height-source answer: its `height` field where
/// that is a `u64`, else 0.
pub open spec fn height_in(v: JsonValue) -> u64 {
    match u64_of(field_of(v, "height"@)) {
        Some(h) => h,
        None => 0,
    }
}

/// Reads the network height from the height source's JSON answer; a body
/// that is not JSON is a protocol error.
pub fn parse_height(body: &[u8]) -> (r: Result<u64, MinerError>)
    ensures
        r is Ok <==> json_of(body@) is Some,
        r matches Ok(h) ==> h == height_in(json_of(body@)->Some_0),
        r is Err ==> r->Err_0 == MinerError::Protocol,
{
    let parsed = parse_json(body);
    match parsed {
        Some(v) => match field(&v, "height") {
            Some(JsonValue::Number(Some(h))) => Ok(*h),
            _ => Ok(0),
        },
        None => Err(MinerError::Protocol),
    }
}

/// Parameters with fewer than nine positions never decode; nine positions
/// whose last is not a boolean decode with `clean_jobs` false.
pub proof fn lemma_job_field_count(params: Seq<JsonValue>, job: MiningJob)
    ensures
        params.len() < 9 ==> !job_fields_present(params),
        job_fields_present(params) && decodes_to(job, params) && !(params[8] is Bool)
            ==> !job.clean_jobs,
{
}

} // verus!
