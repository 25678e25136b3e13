//! The Stratum session: what the miner asks of the pool, and what it does
//! with each message that the pool sends.
//!
//! The connection, the text form of JSON and the clock are the caller's; the
//! session turns each decoded message into its new state and into what the
//! caller has to do next (publish a job, work out a target from a
//! difficulty).

use std::collections::HashMap;
use vstd::prelude::*;
use vstd::utf8::encode_utf8;

use crate::encoding::{
    decode_hex, format_hex16, hex16, hex_bytes, hex_text, hex_u64, law_hex_round_trip, parse_hex_u64,
};
use crate::json::{str_eq, Json, JsonNumber};
use crate::miner::FoundShare;
use crate::pow::{hash_bytes, le_word, lemma_le_word_of_hash_bytes};
use crate::target::{reciprocal_target, target_from_reciprocal_bits, TargetError};
use crate::uint256::Uint256;

verus! {

broadcast use vstd::std_specs::hash::group_hash_axioms;

/// The block template of the last `mining.notify`.
#[derive(Clone, Debug)]
pub struct Template {
    pub id: String,
    pub pre_pow_hash: [u64; 4],
    pub timestamp: u64,
}

/// Everything a job is made of but its matrix, which the pre-PoW hash seeds.
#[derive(Clone, Debug)]
pub struct JobRequest {
    pub id: String,
    pub pre_pow_hash: [u64; 4],
    pub timestamp: u64,
    pub target: Uint256,
    pub nonce_mask: u64,
    pub nonce_fixed: u64,
}

/// Counts of the pool's answers to submitted shares, and the submissions
/// that are still unanswered (request id to job id).
#[derive(Debug)]
pub struct ShareStats {
    pub accepted: u64,
    pub stale: u64,
    pub low_diff: u64,
    pub duplicate: u64,
    pub rejected: u64,
    pub pending: HashMap<u64, String>,
}

/// Why a pre-PoW hash was refused.
#[derive(Clone, Copy, Debug, PartialEq, Eq, Structural)]
pub enum HashWordsError {
    /// An array that does not hold four words.
    WrongWordCount,
    /// An array element that is not a `u64`.
    WordNotU64,
    /// A string that is not hexadecimal.
    InvalidHex,
    /// Hexadecimal that does not decode to 32 bytes.
    WrongByteLength,
    /// Neither an array nor a string.
    UnsupportedEncoding,
}

/// Why the session refused a message.
#[derive(Clone, Copy, Debug, PartialEq, Eq, Structural)]
pub enum SessionError {
    /// `mining.set_difficulty` without a number as its first parameter.
    MissingDifficulty,
    /// The difficulty has no target.
    Target(TargetError),
    /// The extranonce is not a hexadecimal `u64`.
    InvalidExtranonce,
    /// `mining.notify` whose parameters are not an array.
    NotifyParamsNotArray,
    /// `mining.notify` with fewer than three parameters.
    NotifyTooShort,
    /// `mining.notify` whose job id is not a string.
    JobIdNotString,
    /// `mining.notify` with an unusable pre-PoW hash.
    PrePowHash(HashWordsError),
    /// `mining.notify` whose timestamp is not a `u64`.
    TimestampNotU64,
}

/// What the caller has to do after a message.
#[derive(Clone, Debug)]
pub enum Outcome {
    /// Nothing.
    Nothing,
    /// Build this job and publish it.
    Publish(JobRequest),
    /// Work out the target of this difficulty and hand it to `apply_difficulty`.
    SetDifficulty(JsonNumber),
    /// A method that the session does not know; it was ignored.
    Unsupported,
    /// A message with neither a method nor a request id; it was ignored.
    Unhandled,
    /// The pool refused request `id` with this error code; `job` is the job
    /// of the share, when the request was a pending submission.
    RequestFailed { id: u64, code: i64, job: Option<String> },
    /// The pool answered a submitted share.
    ShareAnswered { id: u64, accepted: bool },
}

/// The nonce mask and fixed bits that an extranonce stands for: with fewer
/// than 8 free nonce bytes, the low `8 * size` bits are free and the
/// extranonce prefix fills the bits above them; an empty prefix is zero.
/// Nothing when the prefix is not a hexadecimal `u64`.
pub open spec fn extranonce_layout(extra: Seq<char>, size: u32) -> Option<(u64, u64)> {
    if size >= 8 {
        Some((u64::MAX, 0u64))
    } else {
        let free_bits = (8 * size) as u64;
        let prefix = if extra.len() == 0 {
            Some(0u64)
        } else {
            hex_u64(extra)
        };
        match prefix {
            Some(p) => Some((((1u64 << free_bits) - 1) as u64, p << free_bits)),
            None => None,
        }
    }
}

/// The fixed bits that an extranonce lays out never overlap the free bits:
/// the counter's bits and the pool's prefix share no position.
pub proof fn law_extranonce_layout_disjoint(extra: Seq<char>, size: u32)
    ensures
        extranonce_layout(extra, size) matches Some((mask, fixed)) ==> fixed & mask == 0,
{
    if size < 8 {
        let fb = (8 * size) as u64;
        match extranonce_layout(extra, size) {
            Some((mask, fixed)) => {
                let p = if extra.len() == 0 {
                    0u64
                } else {
                    hex_u64(extra).unwrap()
                };
                assert((p << fb) & (((1u64 << fb) - 1) as u64) == 0) by (bit_vector)
                    requires
                        fb < 64,
                ;
            },
            None => {},
        }
    } else {
        assert(0u64 & u64::MAX == 0) by (bit_vector);
    }
}

/// The characters after a leading `0x`, if there is one.
pub open spec fn strip_0x(s: Seq<char>) -> Seq<char> {
    if s.len() >= 2 && s[0] == '0' && s[1] == 'x' {
        s.skip(2)
    } else {
        s
    }
}

/// The four words of a pre-PoW hash: either an array of four `u64`, or 32
/// bytes of hexadecimal text (with or without `0x`) read as four
/// little-endian words.
pub open spec fn hash_words(value: Json) -> Result<Seq<u64>, HashWordsError> {
    match value {
        Json::Array(items) => if items@.len() != 4 {
            Err(HashWordsError::WrongWordCount)
        } else if forall|i: int| 0 <= i < 4 ==> (#[trigger] items@[i]).u64_value() is Some {
            Ok(Seq::new(4, |i: int| items@[i].u64_value().unwrap()))
        } else {
            Err(HashWordsError::WordNotU64)
        },
        Json::Str(s) => match hex_bytes(encode_utf8(strip_0x(s@))) {
            Some(raw) => if raw.len() == 32 {
                Ok(Seq::new(4, |k: int| le_word(raw, k)))
            } else {
                Err(HashWordsError::WrongByteLength)
            },
            None => Err(HashWordsError::InvalidHex),
        },
        _ => Err(HashWordsError::UnsupportedEncoding),
    }
}

/// A pre-PoW hash read back from its written forms: the hexadecimal text of
/// its 32 little-endian bytes (`hex::encode`), the same text after `0x`, and
/// the array of its four words all give the four words.
pub proof fn law_hash_words_round_trip(w: Seq<u64>, text: String, prefixed: String, items: Vec<Json>)
    requires
        w.len() == 4,
        text@ == hex_text(hash_bytes(w)),
        prefixed@ == seq!['0', 'x'] + hex_text(hash_bytes(w)),
        items@ == Seq::new(4, |i: int| Json::Number(JsonNumber::PosInt(w[i]))),
    ensures
        hash_words(Json::Str(text)) == Ok::<Seq<u64>, HashWordsError>(w),
        hash_words(Json::Str(prefixed)) == Ok::<Seq<u64>, HashWordsError>(w),
        hash_words(Json::Array(items)) == Ok::<Seq<u64>, HashWordsError>(w),
{
    let bytes = hash_bytes(w);
    law_hex_round_trip(bytes);
    let t = hex_text(bytes);
    assert(t.len() == 64);
    assert(t[1] != 'x');
    assert(strip_0x(text@) == t);
    assert(strip_0x(prefixed@) =~= t);
    assert forall|k: int| 0 <= k < 4 implies le_word(bytes, k) == w[k] by {
        lemma_le_word_of_hash_bytes(w, k);
    }
    assert(Seq::new(4, |k: int| le_word(bytes, k)) =~= w);
    assert(forall|i: int| 0 <= i < 4 ==> (#[trigger] items@[i]).u64_value() == Some(w[i]));
    assert(Seq::new(4, |i: int| items@[i].u64_value().unwrap()) =~= w);
}

/// Reads a pre-PoW hash from its JSON form.
pub fn parse_hash_words(value: &Json) -> (r: Result<[u64; 4], HashWordsError>)
    ensures
        match r {
            Ok(w) => hash_words(*value) == Ok::<Seq<u64>, HashWordsError>(w@),
            Err(e) => hash_words(*value) == Err::<Seq<u64>, HashWordsError>(e),
        },
{
    match value {
        Json::Array(items) => {
            if items.len() != 4 {
                return Err(HashWordsError::WrongWordCount);
            }
            let mut out = [0u64; 4];
            for i in 0..4usize
                invariant
                    items@.len() == 4,
                    *value == Json::Array(*items),
                    forall|k: int| 0 <= k < i ==> items@[k].u64_value() == Some(out[k]),
            {
                match items[i].as_u64() {
                    Some(w) => {
                        out[i] = w;
                    },
                    None => {
                        return Err(HashWordsError::WordNotU64);
                    },
                }
            }
            assert(out@ =~= Seq::new(4, |i: int| items@[i].u64_value().unwrap()));
            Ok(out)
        },
        Json::Str(s) => {
            let text = s.as_str();
            let n = text.unicode_len();
            let body = if n >= 2 && text.get_char(0) == '0' && text.get_char(1) == 'x' {
                text.substring_char(2, n)
            } else {
                text
            };
            assert(body@ == strip_0x(s@)) by {
                if n >= 2 && text@[0] == '0' && text@[1] == 'x' {
                    assert(body@ =~= s@.skip(2));
                }
            }
            let raw = match decode_hex(body.as_bytes()) {
                Some(raw) => raw,
                None => {
                    return Err(HashWordsError::InvalidHex);
                },
            };
            if raw.len() != 32 {
                return Err(HashWordsError::WrongByteLength);
            }
            let mut out = [0u64; 4];
            for k in 0..4usize
                invariant
                    raw@.len() == 32,
                    forall|j: int| 0 <= j < k ==> out[j] == le_word(raw@, j),
            {
                let b = 8 * k;
                out[k] = (raw[b] as u64) | ((raw[b + 1] as u64) << 8u64) | ((raw[b + 2] as u64)
                    << 16u64) | ((raw[b + 3] as u64) << 24u64) | ((raw[b + 4] as u64) << 32u64)
                    | ((raw[b + 5] as u64) << 40u64) | ((raw[b + 6] as u64) << 48u64) | ((raw[b
                    + 7] as u64) << 56u64);
            }
            assert(out@ =~= Seq::new(4, |k: int| le_word(raw@, k)));
            Ok(out)
        },
        _ => Err(HashWordsError::UnsupportedEncoding),
    }
}

/// The Stratum session with one pool.
pub struct StratumSession {
    pub address: String,
    pub wallet: String,
    pub target: Uint256,
    pub nonce_mask: u64,
    pub nonce_fixed: u64,
    pub last_template: Option<Template>,
    pub next_id: u64,
    pub stats: ShareStats,
}

/// The job that the session state calls for: one for the last template, once
/// a difficulty has given a non-zero target.
pub open spec fn requested_job(
    last_template: Option<Template>,
    target: Uint256,
    nonce_mask: u64,
    nonce_fixed: u64,
) -> Option<JobRequest> {
    match last_template {
        Some(t) => if target.value() == 0 {
            None
        } else {
            Some(
                JobRequest {
                    id: t.id,
                    pre_pow_hash: t.pre_pow_hash,
                    timestamp: t.timestamp,
                    target,
                    nonce_mask,
                    nonce_fixed,
                },
            )
        },
        None => None,
    }
}

/// The job that a session state calls for is built from the last template
/// under the session's target and exactly its nonce layout: the mask of
/// the free bits and the fixed bits from the last extranonce.
pub proof fn law_requested_job_layout(
    last_template: Option<Template>,
    target: Uint256,
    nonce_mask: u64,
    nonce_fixed: u64,
)
    ensures
        requested_job(last_template, target, nonce_mask, nonce_fixed) is Some <==> (
        last_template is Some && target.value() != 0),
        requested_job(last_template, target, nonce_mask, nonce_fixed) matches Some(req) ==> {
            &&& req.nonce_mask == nonce_mask
            &&& req.nonce_fixed == nonce_fixed
            &&& req.target == target
            &&& req.id == last_template.unwrap().id
            &&& req.pre_pow_hash == last_template.unwrap().pre_pow_hash
            &&& req.timestamp == last_template.unwrap().timestamp
        },
{
}

/// A job that a message makes the session publish carries the session's
/// nonce layout and target after the message, and its last template.
pub proof fn law_published_job_layout(
    a: StratumSession,
    b: StratumSession,
    msg: Json,
    r: Result<Outcome, SessionError>,
)
    requires
        handled(a, b, msg, r),
    ensures
        r matches Ok(Outcome::Publish(req)) ==> {
            &&& req.nonce_mask == b.nonce_mask
            &&& req.nonce_fixed == b.nonce_fixed
            &&& req.target == b.target
            &&& b.last_template matches Some(t) && req.id == t.id && req.pre_pow_hash
                == t.pre_pow_hash && req.timestamp == t.timestamp
        },
{
    law_requested_job_layout(a.last_template, a.target, b.nonce_mask, b.nonce_fixed);
    law_requested_job_layout(b.last_template, b.target, b.nonce_mask, b.nonce_fixed);
}

/// The outcome of publishing what the state calls for.
pub open spec fn publish_outcome(job: Option<JobRequest>) -> Outcome {
    match job {
        Some(req) => Outcome::Publish(req),
        None => Outcome::Nothing,
    }
}


/// The parameter `i` of a request or notification (a missing `params`
/// counts as the empty array).
pub open spec fn param(msg: Json, i: int) -> Option<Json> {
    match msg.key("params"@) {
        Some(p) => p.at(i),
        None => None,
    }
}

/// The text of parameter `i`.
pub open spec fn param_text(msg: Json, i: int) -> Option<Seq<char>> {
    match param(msg, i) {
        Some(v) => v.text(),
        None => None,
    }
}

/// Parameter `i` as `u64`.
pub open spec fn param_u64(msg: Json, i: int) -> Option<u64> {
    match param(msg, i) {
        Some(v) => v.u64_value(),
        None => None,
    }
}

/// Whether the parameters are an array (a missing `params` is one).
pub open spec fn params_are_array(msg: Json) -> bool {
    match msg.key("params"@) {
        Some(Json::Array(_)) => true,
        Some(_) => false,
        None => true,
    }
}

/// The number of parameters when they are an array.
pub open spec fn params_len(msg: Json) -> int {
    match msg.key("params"@) {
        Some(Json::Array(items)) => items@.len() as int,
        _ => 0,
    }
}

/// The method of a notification or request, when it is a string.
pub open spec fn method_of(msg: Json) -> Option<Seq<char>> {
    match msg.key("method"@) {
        Some(m) => m.text(),
        None => None,
    }
}

/// The request id of a reply, when it is a `u64`.
pub open spec fn reply_id(msg: Json) -> Option<u64> {
    match msg.key("id"@) {
        Some(v) => v.u64_value(),
        None => None,
    }
}

/// The error of a reply, when there is one that is not `null`.
pub open spec fn reply_error(msg: Json) -> Option<Json> {
    match msg.key("error"@) {
        Some(e) => if e is Null {
            None
        } else {
            Some(e)
        },
        None => None,
    }
}

/// The error code of a reply: its first element as `i64`, or 20.
pub open spec fn error_code(e: Json) -> i64 {
    match e.at(0) {
        Some(c) => match c.i64_value() {
            Some(code) => code,
            None => 20,
        },
        None => 20,
    }
}

/// Whether a share's result accepts it: `true`, or an array whose first
/// element is `true`.
pub open spec fn result_accepts(result: Option<Json>) -> bool {
    match result {
        Some(r) => r.is_true() || (r.at(0) matches Some(first) && first.is_true()),
        None => false,
    }
}

/// The extranonce and free nonce size of a subscribe reply's result: an
/// array of at least three elements whose second is a string and whose
/// third is a `u64`.
pub open spec fn subscribe_result(msg: Json) -> Option<(Seq<char>, u64)> {
    match msg.key("result"@) {
        Some(Json::Array(items)) => if items@.len() >= 3 {
            match (items@[1].text(), items@[2].u64_value()) {
                (Some(extra), Some(size)) => Some((extra, size)),
                _ => None,
            }
        } else {
            None
        },
        _ => None,
    }
}

/// The same counters and the same pending submissions.
pub open spec fn same_stats(a: ShareStats, b: ShareStats) -> bool {
    &&& b.accepted == a.accepted
    &&& b.stale == a.stale
    &&& b.low_diff == a.low_diff
    &&& b.duplicate == a.duplicate
    &&& b.rejected == a.rejected
    &&& b.pending@ == a.pending@
}

/// `b` is `a` with nothing changed.
pub open spec fn unchanged(a: StratumSession, b: StratumSession) -> bool {
    &&& b.address == a.address
    &&& b.wallet == a.wallet
    &&& b.target == a.target
    &&& b.nonce_mask == a.nonce_mask
    &&& b.nonce_fixed == a.nonce_fixed
    &&& b.last_template == a.last_template
    &&& b.next_id == a.next_id
    &&& same_stats(a.stats, b.stats)
}

/// `b` is `a` with the nonce laid out as `layout` says, and `r` is what
/// follows: the job that the new layout calls for.
pub open spec fn relaid(
    a: StratumSession,
    b: StratumSession,
    layout: Option<(u64, u64)>,
    r: Result<Outcome, SessionError>,
) -> bool {
    match layout {
        Some((mask, fixed)) => {
            &&& b.nonce_mask == mask
            &&& b.nonce_fixed == fixed
            &&& b.address == a.address
            &&& b.wallet == a.wallet
            &&& b.target == a.target
            &&& b.last_template == a.last_template
            &&& b.next_id == a.next_id
            &&& same_stats(a.stats, b.stats)
            &&& r == Ok::<Outcome, SessionError>(
                publish_outcome(requested_job(a.last_template, a.target, mask, fixed)),
            )
        },
        None => {
            &&& unchanged(a, b)
            &&& r == Err::<Outcome, SessionError>(SessionError::InvalidExtranonce)
        },
    }
}

/// The job of a pending submission.
pub open spec fn pending_job(pending: Map<u64, String>, id: u64) -> Option<String> {
    if pending.contains_key(id) {
        Some(pending[id])
    } else {
        None
    }
}

/// The counters after the pool refused request `id` with `code`: 21 is a
/// stale share, 22 a duplicate, 23 a low-difficulty share, and any other
/// code a rejection; the request is no longer pending.
pub open spec fn counted_error(a: ShareStats, b: ShareStats, id: u64, code: i64) -> bool {
    &&& b.pending@ == a.pending@.remove(id)
    &&& b.accepted == a.accepted
    &&& b.stale == if code == 21 {
        a.stale.wrapping_add(1)
    } else {
        a.stale
    }
    &&& b.duplicate == if code == 22 {
        a.duplicate.wrapping_add(1)
    } else {
        a.duplicate
    }
    &&& b.low_diff == if code == 23 {
        a.low_diff.wrapping_add(1)
    } else {
        a.low_diff
    }
    &&& b.rejected == if code != 21 && code != 22 && code != 23 {
        a.rejected.wrapping_add(1)
    } else {
        a.rejected
    }
}

/// The counters after the pool answered pending share `id`.
pub open spec fn counted_answer(a: ShareStats, b: ShareStats, id: u64, accepted: bool) -> bool {
    &&& b.pending@ == a.pending@.remove(id)
    &&& b.accepted == if accepted {
        a.accepted.wrapping_add(1)
    } else {
        a.accepted
    }
    &&& b.rejected == if accepted {
        a.rejected
    } else {
        a.rejected.wrapping_add(1)
    }
    &&& b.stale == a.stale
    &&& b.duplicate == a.duplicate
    &&& b.low_diff == a.low_diff
}

/// `b` is `a` with only its share counters changed as `counted` says.
pub open spec fn only_stats_changed(a: StratumSession, b: StratumSession) -> bool {
    &&& b.address == a.address
    &&& b.wallet == a.wallet
    &&& b.target == a.target
    &&& b.nonce_mask == a.nonce_mask
    &&& b.nonce_fixed == a.nonce_fixed
    &&& b.last_template == a.last_template
    &&& b.next_id == a.next_id
}

/// How the session handles a notification whose method is `method`.
pub open spec fn handled_notification(
    a: StratumSession,
    b: StratumSession,
    msg: Json,
    method: Seq<char>,
    r: Result<Outcome, SessionError>,
) -> bool {
    if method == "mining.set_difficulty"@ {
        &&& unchanged(a, b)
        &&& r == match param(msg, 0) {
            Some(Json::Number(n)) => Ok::<Outcome, SessionError>(Outcome::SetDifficulty(n)),
            _ => Err::<Outcome, SessionError>(SessionError::MissingDifficulty),
        }
    } else if method == "mining.set_extranonce"@ || method == "set_extranonce"@ {
        let extra = match param_text(msg, 0) {
            Some(t) => t,
            None => Seq::<char>::empty(),
        };
        let size = match param_u64(msg, 1) {
            Some(n) => n,
            None => 8u64,
        };
        relaid(a, b, extranonce_layout(extra, size as u32), r)
    } else if method == "mining.notify"@ {
        if !params_are_array(msg) {
            unchanged(a, b) && r == Err::<Outcome, SessionError>(
                SessionError::NotifyParamsNotArray,
            )
        } else if params_len(msg) < 3 {
            unchanged(a, b) && r == Err::<Outcome, SessionError>(SessionError::NotifyTooShort)
        } else if param_text(msg, 0) is None {
            unchanged(a, b) && r == Err::<Outcome, SessionError>(SessionError::JobIdNotString)
        } else if hash_words(param(msg, 1).unwrap()) is Err {
            unchanged(a, b) && r == Err::<Outcome, SessionError>(
                SessionError::PrePowHash(hash_words(param(msg, 1).unwrap())->Err_0),
            )
        } else if param_u64(msg, 2) is None {
            unchanged(a, b) && r == Err::<Outcome, SessionError>(SessionError::TimestampNotU64)
        } else {
            &&& b.last_template matches Some(t) && t.id@ == param_text(msg, 0).unwrap()
                && t.pre_pow_hash@ == hash_words(param(msg, 1).unwrap())->Ok_0 && t.timestamp
                == param_u64(msg, 2).unwrap()
            &&& b.address == a.address
            &&& b.wallet == a.wallet
            &&& b.target == a.target
            &&& b.nonce_mask == a.nonce_mask
            &&& b.nonce_fixed == a.nonce_fixed
            &&& b.next_id == a.next_id
            &&& same_stats(a.stats, b.stats)
            &&& r == Ok::<Outcome, SessionError>(publish_outcome(b.wanted_job()))
        }
    } else {
        unchanged(a, b) && r == Ok::<Outcome, SessionError>(Outcome::Unsupported)
    }
}

/// How the session handles a message without a method: a reply.
pub open spec fn handled_reply(
    a: StratumSession,
    b: StratumSession,
    msg: Json,
    r: Result<Outcome, SessionError>,
) -> bool {
    match reply_id(msg) {
        None => unchanged(a, b) && r == Ok::<Outcome, SessionError>(Outcome::Unhandled),
        Some(id) => match reply_error(msg) {
            Some(e) => {
                &&& only_stats_changed(a, b)
                &&& counted_error(a.stats, b.stats, id, error_code(e))
                &&& r == Ok::<Outcome, SessionError>(
                    Outcome::RequestFailed {
                        id,
                        code: error_code(e),
                        job: pending_job(a.stats.pending@, id),
                    },
                )
            },
            None => if a.stats.pending@.contains_key(id) {
                let accepted = result_accepts(msg.key("result"@));
                &&& only_stats_changed(a, b)
                &&& counted_answer(a.stats, b.stats, id, accepted)
                &&& r == Ok::<Outcome, SessionError>(Outcome::ShareAnswered { id, accepted })
            } else {
                match subscribe_result(msg) {
                    Some((extra, size)) => relaid(a, b, extranonce_layout(extra, size as u32), r),
                    None => unchanged(a, b) && r == Ok::<Outcome, SessionError>(Outcome::Nothing),
                }
            },
        },
    }
}

/// How the session handles a message from the pool.
pub open spec fn handled(
    a: StratumSession,
    b: StratumSession,
    msg: Json,
    r: Result<Outcome, SessionError>,
) -> bool {
    match method_of(msg) {
        Some(method) => handled_notification(a, b, msg, method, r),
        None => handled_reply(a, b, msg, r),
    }
}

/// The pool's fixed nonce bits and the free bits do not overlap.
pub open spec fn layout_disjoint(s: StratumSession) -> bool {
    s.nonce_fixed & s.nonce_mask == 0
}

/// Every message keeps the nonce layout disjoint: a session starts with all
/// bits free, and whatever the pool sends, the fixed bits never overlap the
/// bits that the device counts through.
pub proof fn law_session_keeps_layout_disjoint(
    a: StratumSession,
    b: StratumSession,
    msg: Json,
    r: Result<Outcome, SessionError>,
)
    requires
        layout_disjoint(a),
        handled(a, b, msg, r),
    ensures
        layout_disjoint(b),
{
    match method_of(msg) {
        Some(method) => {
            if method == "mining.set_extranonce"@ || method == "set_extranonce"@ {
                let extra = match param_text(msg, 0) {
                    Some(t) => t,
                    None => Seq::<char>::empty(),
                };
                let size = match param_u64(msg, 1) {
                    Some(n) => n,
                    None => 8u64,
                };
                law_extranonce_layout_disjoint(extra, size as u32);
            }
        },
        None => {
            match subscribe_result(msg) {
                Some((extra, size)) => law_extranonce_layout_disjoint(extra, size as u32),
                None => {},
            }
        },
    }
}

/// A JSON-RPC request: `{"id": id, "method": method, "params": [..]}` whose
/// parameters are the strings `params`.
pub open spec fn is_request(req: Json, id: u64, method: Seq<char>, params: Seq<Seq<char>>) -> bool {
    &&& req matches Json::Object(entries)
    &&& entries@.len() == 3
    &&& entries@[0].0@ == "id"@
    &&& entries@[0].1 == Json::Number(JsonNumber::PosInt(id))
    &&& entries@[1].0@ == "method"@
    &&& entries@[1].1.text() == Some(method)
    &&& entries@[2].0@ == "params"@
    &&& entries@[2].1 matches Json::Array(items)
    &&& items@.len() == params.len()
    &&& forall|i: int| 0 <= i < params.len() ==> (#[trigger] items@[i]).text() == Some(params[i])
}

impl StratumSession {
    /// The job that this state calls for.
    pub open spec fn wanted_job(&self) -> Option<JobRequest> {
        requested_job(self.last_template, self.target, self.nonce_mask, self.nonce_fixed)
    }

    /// A session that has heard nothing from the pool yet.
    pub fn new(address: String, wallet: String) -> (s: Self)
        ensures
            s.address == address,
            s.wallet == wallet,
            s.target.value() == 0,
            s.nonce_mask == u64::MAX,
            s.nonce_fixed == 0,
            layout_disjoint(s),
            s.last_template is None,
            s.next_id == 1,
            s.stats.accepted == 0 && s.stats.stale == 0 && s.stats.low_diff == 0
                && s.stats.duplicate == 0 && s.stats.rejected == 0,
            s.stats.pending@.is_empty(),
    {
        assert(0u64 & u64::MAX == 0) by (bit_vector);
        StratumSession {
            address,
            wallet,
            target: Uint256::zero(),
            nonce_mask: u64::MAX,
            nonce_fixed: 0,
            last_template: None,
            next_id: 1,
            stats: ShareStats {
                accepted: 0,
                stale: 0,
                low_diff: 0,
                duplicate: 0,
                rejected: 0,
                pending: HashMap::new(),
            },
        }
    }

    /// Hands out the next request id; ids count up from 1, wrapping at 2^64.
    pub fn next_id(&mut self) -> (id: u64)
        ensures
            id == old(self).next_id,
            final(self).next_id == old(self).next_id.wrapping_add(1),
            final(self).address == old(self).address,
            final(self).wallet == old(self).wallet,
            final(self).target == old(self).target,
            final(self).nonce_mask == old(self).nonce_mask,
            final(self).nonce_fixed == old(self).nonce_fixed,
            final(self).last_template == old(self).last_template,
            final(self).stats == old(self).stats,
    {
        let id = self.next_id;
        self.next_id = self.next_id.wrapping_add(1);
        id
    }

    /// Lays the nonce out for an extranonce prefix (hexadecimal) and the
    /// number of nonce bytes that the pool leaves free.
    pub fn set_extranonce(&mut self, extra_hex: &str, nonce_size_bytes: u32) -> (r: Result<
        (),
        SessionError,
    >)
        ensures
            match extranonce_layout(extra_hex@, nonce_size_bytes) {
                Some((mask, fixed)) => {
                    &&& r is Ok
                    &&& final(self).nonce_mask == mask
                    &&& final(self).nonce_fixed == fixed
                },
                None => {
                    &&& r == Err::<(), SessionError>(SessionError::InvalidExtranonce)
                    &&& final(self).nonce_mask == old(self).nonce_mask
                    &&& final(self).nonce_fixed == old(self).nonce_fixed
                },
            },
            final(self).address == old(self).address,
            final(self).wallet == old(self).wallet,
            final(self).target == old(self).target,
            final(self).last_template == old(self).last_template,
            final(self).next_id == old(self).next_id,
            final(self).stats == old(self).stats,
    {
        if nonce_size_bytes >= 8 {
            self.nonce_mask = u64::MAX;
            self.nonce_fixed = 0;
            return Ok(());
        }
        let free_bits = nonce_size_bytes * 8;
        let prefix = if extra_hex.unicode_len() == 0 {
            0
        } else {
            match parse_hex_u64(extra_hex) {
                Ok(p) => p,
                Err(_) => {
                    return Err(SessionError::InvalidExtranonce);
                },
            }
        };
        let shift = free_bits as u64;
        assert(1u64 << shift >= 1) by (bit_vector)
            requires
                shift < 64,
        ;
        self.nonce_mask = (1u64 << shift) - 1;
        self.nonce_fixed = prefix << shift;
        Ok(())
    }

    /// The job that the last template and the current target call for, if
    /// the pool has sent both.
    pub fn republish(&self) -> (r: Option<JobRequest>)
        ensures
            r == self.wanted_job(),
            r matches Some(req) ==> req.nonce_mask == self.nonce_mask && req.nonce_fixed
                == self.nonce_fixed && req.target == self.target,
    {
        match &self.last_template {
            Some(t) => {
                if self.target.is_zero() {
                    return None;
                }
                Some(
                    JobRequest {
                        id: t.id.clone(),
                        pre_pow_hash: t.pre_pow_hash,
                        timestamp: t.timestamp,
                        target: self.target,
                        nonce_mask: self.nonce_mask,
                        nonce_fixed: self.nonce_fixed,
                    },
                )
            },
            None => None,
        }
    }

    /// Takes the target of a difficulty (from the bits of the `f32`
    /// reciprocal of the difficulty) and returns the job it calls for.
    pub fn apply_difficulty(&mut self, reciprocal_bits: u32) -> (r: Result<
        Option<JobRequest>,
        SessionError,
    >)
        ensures
            match reciprocal_target(reciprocal_bits) {
                Ok(v) => {
                    &&& final(self).target.value() == v
                    &&& r == Ok::<Option<JobRequest>, SessionError>(final(self).wanted_job())
                },
                Err(e) => {
                    &&& final(self).target == old(self).target
                    &&& r == Err::<Option<JobRequest>, SessionError>(SessionError::Target(e))
                },
            },
            final(self).address == old(self).address,
            final(self).wallet == old(self).wallet,
            final(self).nonce_mask == old(self).nonce_mask,
            final(self).nonce_fixed == old(self).nonce_fixed,
            final(self).last_template == old(self).last_template,
            final(self).next_id == old(self).next_id,
            final(self).stats == old(self).stats,
    {
        match target_from_reciprocal_bits(reciprocal_bits) {
            Ok(t) => {
                self.target = t;
                Ok(self.republish())
            },
            Err(e) => Err(SessionError::Target(e)),
        }
    }

    /// The `mining.subscribe` request, which names the miner as `agent`.
    pub fn subscribe_request(&mut self, agent: &str) -> (req: Json)
        ensures
            is_request(req, old(self).next_id, "mining.subscribe"@, seq![agent@]),
            final(self).next_id == old(self).next_id.wrapping_add(1),
            final(self).address == old(self).address,
            final(self).wallet == old(self).wallet,
            final(self).target == old(self).target,
            final(self).nonce_mask == old(self).nonce_mask,
            final(self).nonce_fixed == old(self).nonce_fixed,
            final(self).last_template == old(self).last_template,
            final(self).stats == old(self).stats,
    {
        let id = self.next_id();
        let mut params = Vec::new();
        params.push(Json::Str(String::from_str(agent)));
        request(id, "mining.subscribe", params)
    }

    /// The `mining.authorize` request for the wallet, with password `x`.
    pub fn authorize_request(&mut self) -> (req: Json)
        ensures
            is_request(req, old(self).next_id, "mining.authorize"@, seq![old(self).wallet@, "x"@]),
            final(self).next_id == old(self).next_id.wrapping_add(1),
            final(self).address == old(self).address,
            final(self).wallet == old(self).wallet,
            final(self).target == old(self).target,
            final(self).nonce_mask == old(self).nonce_mask,
            final(self).nonce_fixed == old(self).nonce_fixed,
            final(self).last_template == old(self).last_template,
            final(self).stats == old(self).stats,
    {
        let id = self.next_id();
        let mut params = Vec::new();
        params.push(Json::Str(self.wallet.clone()));
        params.push(Json::Str(String::from_str("x")));
        request(id, "mining.authorize", params)
    }

    /// The `mining.submit` request for a share, which is then pending under
    /// its request id; the nonce goes as 16 lowercase hexadecimal digits.
    pub fn submit_request(&mut self, share: &FoundShare) -> (req: Json)
        ensures
            is_request(
                req,
                old(self).next_id,
                "mining.submit"@,
                seq![old(self).wallet@, share.job_id@, hex16(share.nonce)],
            ),
            final(self).stats.pending@ == old(self).stats.pending@.insert(
                old(self).next_id,
                share.job_id,
            ),
            final(self).stats.accepted == old(self).stats.accepted,
            final(self).stats.stale == old(self).stats.stale,
            final(self).stats.low_diff == old(self).stats.low_diff,
            final(self).stats.duplicate == old(self).stats.duplicate,
            final(self).stats.rejected == old(self).stats.rejected,
            final(self).next_id == old(self).next_id.wrapping_add(1),
            final(self).address == old(self).address,
            final(self).wallet == old(self).wallet,
            final(self).target == old(self).target,
            final(self).nonce_mask == old(self).nonce_mask,
            final(self).nonce_fixed == old(self).nonce_fixed,
            final(self).last_template == old(self).last_template,
    {
        let id = self.next_id();
        self.stats.pending.insert(id, share.job_id.clone());
        let mut params = Vec::new();
        params.push(Json::Str(self.wallet.clone()));
        params.push(Json::Str(share.job_id.clone()));
        params.push(Json::Str(format_hex16(share.nonce)));
        request(id, "mining.submit", params)
    }

    /// Handles one message from the pool: a notification (`method` set) or
    /// a reply to one of the session's requests.
    pub fn handle_message(&mut self, msg: &Json) -> (r: Result<Outcome, SessionError>)
        ensures
            handled(*old(self), *final(self), *msg, r),
    {
        let method = match msg.get_key("method") {
            Some(m) => m.as_str(),
            None => None,
        };
        match method {
            Some(method) => self.handle_notification(msg, method),
            None => self.handle_reply(msg),
        }
    }

    fn handle_notification(&mut self, msg: &Json, method: &str) -> (r: Result<
        Outcome,
        SessionError,
    >)
        requires
            method_of(*msg) == Some(method@),
        ensures
            handled_notification(*old(self), *final(self), *msg, method@, r),
    {
        let params = msg.get_key("params");
        if str_eq(method, "mining.set_difficulty") {
            match param_of(params, 0) {
                Some(Json::Number(n)) => Ok(Outcome::SetDifficulty(*n)),
                _ => Err(SessionError::MissingDifficulty),
            }
        } else if str_eq(method, "mining.set_extranonce") || str_eq(method, "set_extranonce") {
            let extra: &str = match param_of(params, 0) {
                Some(v) => match v.as_str() {
                    Some(t) => t,
                    None => "",
                },
                None => "",
            };
            proof {
                reveal_strlit("");
            }
            let size: u64 = match param_of(params, 1) {
                Some(v) => match v.as_u64() {
                    Some(n) => n,
                    None => 8,
                },
                None => 8,
            };
            match self.set_extranonce(extra, size as u32) {
                Ok(()) => Ok(publish(self.republish())),
                Err(e) => Err(e),
            }
        } else if str_eq(method, "mining.notify") {
            let items = match params {
                Some(Json::Array(items)) => items,
                Some(_) => {
                    return Err(SessionError::NotifyParamsNotArray);
                },
                None => {
                    return Err(SessionError::NotifyTooShort);
                },
            };
            if items.len() < 3 {
                return Err(SessionError::NotifyTooShort);
            }
            let id = match items[0].as_str() {
                Some(t) => String::from_str(t),
                None => {
                    return Err(SessionError::JobIdNotString);
                },
            };
            let pre_pow_hash = match parse_hash_words(&items[1]) {
                Ok(w) => w,
                Err(e) => {
                    return Err(SessionError::PrePowHash(e));
                },
            };
            let timestamp = match items[2].as_u64() {
                Some(t) => t,
                None => {
                    return Err(SessionError::TimestampNotU64);
                },
            };
            self.last_template = Some(Template { id, pre_pow_hash, timestamp });
            Ok(publish(self.republish()))
        } else {
            Ok(Outcome::Unsupported)
        }
    }

    fn handle_reply(&mut self, msg: &Json) -> (r: Result<Outcome, SessionError>)
        requires
            method_of(*msg) is None,
        ensures
            handled_reply(*old(self), *final(self), *msg, r),
    {
        let id = match msg.get_key("id") {
            Some(v) => v.as_u64(),
            None => None,
        };
        let id = match id {
            Some(id) => id,
            None => {
                return Ok(Outcome::Unhandled);
            },
        };
        match msg.get_key("error") {
            Some(Json::Null) => {},
            Some(e) => {
                let job = self.stats.pending.remove(&id);
                let code: i64 = match e.get_index(0) {
                    Some(c) => match c.as_i64() {
                        Some(code) => code,
                        None => 20,
                    },
                    None => 20,
                };
                if code == 21 {
                    self.stats.stale = self.stats.stale.wrapping_add(1);
                } else if code == 22 {
                    self.stats.duplicate = self.stats.duplicate.wrapping_add(1);
                } else if code == 23 {
                    self.stats.low_diff = self.stats.low_diff.wrapping_add(1);
                } else {
                    self.stats.rejected = self.stats.rejected.wrapping_add(1);
                }
                return Ok(Outcome::RequestFailed { id, code, job });
            },
            None => {},
        }
        let result = msg.get_key("result");
        if self.stats.pending.contains_key(&id) {
            let _job = self.stats.pending.remove(&id);
            let accepted = match result {
                Some(Json::Bool(true)) => true,
                Some(r) => match r.get_index(0) {
                    Some(Json::Bool(true)) => true,
                    _ => false,
                },
                None => false,
            };
            if accepted {
                self.stats.accepted = self.stats.accepted.wrapping_add(1);
            } else {
                self.stats.rejected = self.stats.rejected.wrapping_add(1);
            }
            return Ok(Outcome::ShareAnswered { id, accepted });
        }
        if let Some(Json::Array(items)) = result {
            if items.len() >= 3 {
                if let (Some(extra), Some(size)) = (items[1].as_str(), items[2].as_u64()) {
                    return match self.set_extranonce(extra, size as u32) {
                        Ok(()) => Ok(publish(self.republish())),
                        Err(e) => Err(e),
                    };
                }
            }
        }
        Ok(Outcome::Nothing)
    }
}

/// Element `i` of the parameters, when they are an array.
fn param_of(params: Option<&Json>, i: usize) -> (r: Option<&Json>)
    ensures
        match params {
            Some(p) => match r {
                Some(v) => p.at(i as int) == Some(*v),
                None => p.at(i as int) is None,
            },
            None => r is None,
        },
{
    match params {
        Some(p) => p.get_index(i),
        None => None,
    }
}

/// The outcome of publishing a job, if there is one.
fn publish(job: Option<JobRequest>) -> (o: Outcome)
    ensures
        o == publish_outcome(job),
{
    match job {
        Some(req) => Outcome::Publish(req),
        None => Outcome::Nothing,
    }
}

/// Builds `{"id": id, "method": method, "params": params}`.
fn request(id: u64, method: &str, params: Vec<Json>) -> (req: Json)
    ensures
        req matches Json::Object(entries) && entries@.len() == 3 && entries@[0].0@ == "id"@
            && entries@[0].1 == Json::Number(JsonNumber::PosInt(id)) && entries@[1].0@
            == "method"@ && entries@[1].1.text() == Some(method@) && entries@[2].0@ == "params"@
            && entries@[2].1 == Json::Array(params),
{
    let mut entries = Vec::new();
    entries.push((String::from_str("id"), Json::Number(JsonNumber::PosInt(id))));
    entries.push((String::from_str("method"), Json::Str(String::from_str(method))));
    entries.push((String::from_str("params"), Json::Array(params)));
    Json::Object(entries)
}

} // verus!
