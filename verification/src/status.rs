//! The state of a send that waits for a human: decision, signature, broadcast,
//! acknowledgement.

use crate::flow::{
    answer_with, done, failed, parked, quiet, turn, Call, CallView, Effect, EffectView, PendingJob,
    PendingView, Step, StepView, Turn, TurnView, TxRecord, TxRecordView,
};
use crate::json::{err_json, json_views, reply_value, reply_view, Json, JsonView};
use crate::send::{not_ready, opt_res_json, opt_res_text, text_or};
use crate::strmap::StrMap;
use crate::text::{debug_text, joined, quoted, same_text};
use vstd::prelude::*;

verus! {

/// What is waited for.
#[derive(Debug, Clone, Copy, PartialEq, Eq)]
pub enum StatusStage {
    Status,
    Fetch,
    Broadcast,
    Ack,
}

/// A poll of a human's decision that, on approval, broadcasts the signed
/// transaction and has it recorded.
///
/// It may be run as often as wanted: while nobody has decided it changes
/// nothing, and a result can be fetched again until it is acknowledged.
pub struct StatusFlow {
    stage: StatusStage,
    request_id: String,
    receipt: String,
    /// The record of the transaction on its way to the chain.
    pending: Option<TxRecord>,
    /// Its hash, once broadcast.
    hash: String,
}

/// The state of a [`StatusFlow`].
pub struct StatusView {
    pub stage: StatusStage,
    pub request_id: Seq<char>,
    pub receipt: Seq<char>,
    pub pending: Option<TxRecordView>,
    pub hash: Seq<char>,
}

impl StatusView {
    /// What is broadcast has its record at hand.
    pub open spec fn wf(self) -> bool {
        self.stage is Broadcast ==> self.pending is Some
    }
}

impl View for StatusFlow {
    type V = StatusView;

    closed spec fn view(&self) -> StatusView {
        StatusView {
            stage: self.stage,
            request_id: self.request_id@,
            receipt: self.receipt@,
            pending: match self.pending {
                Some(r) => Some(r@),
                None => None,
            },
            hash: self.hash@,
        }
    }
}

/// The plan of a poll: nothing is asked yet.
pub open spec fn planned_status(
    request_id: Seq<char>,
    jobs: Option<Map<Seq<char>, PendingView>>,
) -> Result<StatusView, Seq<char>> {
    match jobs {
        None => Err(not_ready()),
        Some(jobs) => if !jobs.contains_key(request_id) {
            Err("unknown request"@)
        } else {
            Ok(
                StatusView {
                    stage: StatusStage::Status,
                    request_id,
                    receipt: jobs[request_id].receipt,
                    pending: None,
                    hash: Seq::empty(),
                },
            )
        },
    }
}

/// A plan, or a message.
pub open spec fn res_status(r: Result<StatusFlow, String>) -> Result<StatusView, Seq<char>> {
    match r {
        Ok(f) => Ok(f@),
        Err(e) => Err(e@),
    }
}

/// Plan a poll of a parked transaction. `jobs` is what is parked, once the
/// module has its state.
pub fn plan_send_status(request_id: &str, jobs: Option<&StrMap<PendingJob>>) -> (r: Result<
    StatusFlow,
    String,
>)
    ensures
        res_status(r) == planned_status(
            request_id@,
            match jobs {
                Some(j) => Some(parked(j@)),
                None => None,
            },
        ),
{
    let jobs: &StrMap<PendingJob> = match jobs {
        Some(j) => j,
        None => return Err("backend not initialized (context not ready)".to_owned()),
    };
    match jobs.get(request_id) {
        None => Err("unknown request".to_owned()),
        Some(job) => Ok(
            StatusFlow {
                stage: StatusStage::Status,
                request_id: request_id.to_owned(),
                receipt: job.receipt.clone(),
                pending: None,
                hash: String::new(),
            },
        ),
    }
}

/// The first text among JSON values.
pub open spec fn first_text(items: Seq<JsonView>) -> Option<Seq<char>>
    decreases items.len(),
{
    if items.len() == 0 {
        None
    } else {
        match items[0] {
            JsonView::Str(s) => Some(s),
            _ => first_text(items.skip(1)),
        }
    }
}

/// The signed transaction of a fetched result.
pub open spec fn signed_view(v: JsonView) -> Option<Seq<char>> {
    match v.get_arr("signed"@) {
        Some(items) => first_text(items),
        None => None,
    }
}

/// The signed transaction of a fetched result.
pub fn signed(v: &Json) -> (r: Option<String>)
    ensures
        match r {
            Some(s) => signed_view(v@) == Some(s@),
            None => signed_view(v@) is None,
        },
{
    match v.get_arr("signed") {
        None => None,
        Some(items) => {
            let n: usize = items.len();
            let ghost views = json_views(items@);
            let mut i: usize = 0;
            assert(views.skip(0) =~= views);
            while i < n
                invariant
                    i <= n,
                    n == items@.len(),
                    views == json_views(items@),
                    signed_view(v@) == first_text(views),
                    first_text(views) == first_text(views.skip(i as int)),
                decreases n - i,
            {
                proof {
                    assert(views.skip(i as int)[0] == items@[i as int]@);
                    assert(views.skip(i as int).skip(1) =~= views.skip(i + 1));
                }
                if let Json::Str(s) = &items[i] {
                    return Some(s.clone());
                }
                i += 1;
            }
            None
        },
    }
}

/// The answer while nobody has decided.
pub open spec fn awaiting_json() -> JsonView {
    JsonView::object().with("ok"@, JsonView::Bool(true)).with(
        "state"@,
        JsonView::Str("awaiting_approval"@),
    )
}

/// The answer once it was declined.
pub open spec fn declined_json(reason: Seq<char>) -> JsonView {
    JsonView::object().with("ok"@, JsonView::Bool(true)).with("state"@, JsonView::Str("declined"@)).with(
        "reason"@,
        JsonView::Str(reason),
    )
}

/// The answer once it is on the chain.
pub open spec fn broadcast_json(hash: Seq<char>) -> JsonView {
    JsonView::object().with("ok"@, JsonView::Bool(true)).with("state"@, JsonView::Str("done"@)).with(
        "hash"@,
        JsonView::Str(hash),
    )
}

/// One step on the approval's status.
pub open spec fn status_decided(f: StatusView, v: JsonView, jobs: Map<Seq<char>, PendingView>) -> (
    StatusView,
    Map<Seq<char>, PendingView>,
    TurnView,
) {
    let state = text_or(v.get_str("state"@), ""@);
    if state == "offered"@ || state == "rendered"@ {
        (f, jobs, answer_with(awaiting_json()))
    } else if state != "settled"@ {
        (f, jobs, answer_with(err_json("unexpected approval state "@ + quoted(state))))
    } else if v.get_str("reason"@) != Some("approved"@) {
        (
            f,
            jobs.remove(f.request_id),
            answer_with(declined_json(text_or(v.get_str("reason"@), "settled"@))),
        )
    } else {
        (
            StatusView { stage: StatusStage::Fetch, ..f },
            jobs,
            quiet(StepView::Call(CallView::KeystoreFetchResult(f.request_id, f.receipt))),
        )
    }
}

/// One step on the fetched result.
pub open spec fn status_fetched(f: StatusView, v: JsonView, jobs: Map<Seq<char>, PendingView>) -> (
    StatusView,
    Map<Seq<char>, PendingView>,
    TurnView,
) {
    match signed_view(v) {
        None => (
            f,
            jobs,
            answer_with(err_json("keystore: approval produced no signatures"@)),
        ),
        Some(raw) => if !jobs.contains_key(f.request_id) {
            (f, jobs, answer_with(err_json("unknown request"@)))
        } else {
            let job = jobs[f.request_id];
            (
                StatusView { stage: StatusStage::Broadcast, pending: Some(job.record), ..f },
                jobs.remove(f.request_id),
                quiet(StepView::Call(CallView::EthSendRawTransaction(job.chain_id as i64, raw))),
            )
        },
    }
}

/// One step on the reply to the broadcast.
pub open spec fn status_sent(f: StatusView, v: JsonView) -> (StatusView, TurnView) {
    match v.get_str("hash"@) {
        None => (f, answer_with(err_json("broadcast: no hash"@))),
        Some(hash) => (
            StatusView { stage: StatusStage::Ack, pending: None, hash, ..f },
            TurnView {
                effects: seq![
                    EffectView::RecordTx(TxRecordView { hash, ..f.pending->0 }),
                    EffectView::TxStatusChanged(hash),
                ],
                next: StepView::Call(CallView::KeystoreAckResult(f.request_id, f.receipt)),
            },
        ),
    }
}

/// One step of a poll. `reply` is what the last call gave, and nothing on the
/// first step.
pub open spec fn status_next(
    f: StatusView,
    reply: Option<Result<JsonView, Seq<char>>>,
    jobs: Map<Seq<char>, PendingView>,
) -> (StatusView, Map<Seq<char>, PendingView>, TurnView) {
    match reply {
        None => (
            f,
            jobs,
            quiet(StepView::Call(CallView::KeystoreApprovalStatus(f.request_id, f.receipt))),
        ),
        Some(reply) => match (f.stage, reply) {
            (StatusStage::Ack, _) => (f, jobs, answer_with(broadcast_json(f.hash))),
            (_, Err(e)) => (f, jobs, answer_with(err_json(e))),
            (StatusStage::Status, Ok(v)) => status_decided(f, v, jobs),
            (StatusStage::Fetch, Ok(v)) => status_fetched(f, v, jobs),
            (StatusStage::Broadcast, Ok(v)) => (status_sent(f, v).0, jobs, status_sent(f, v).1),
        },
    }
}

/// What a poll makes of the text it is handed.
pub open spec fn status_input(reply: Option<Result<Seq<char>, Seq<char>>>) -> Option<
    Result<JsonView, Seq<char>>,
> {
    match reply {
        None => None,
        Some(r) => Some(reply_view(r)),
    }
}

impl StatusFlow {
    /// Whether the flow can take a step.
    pub fn can_step(&self) -> (r: bool)
        ensures
            r == self@.wf(),
    {
        match self.stage {
            StatusStage::Broadcast => self.pending.is_some(),
            _ => true,
        }
    }

    /// A step on the approval's status.
    fn decided(&mut self, v: &Json, jobs: &mut StrMap<PendingJob>) -> (r: Turn)
        ensures
            (final(self)@, parked(final(jobs)@), r@) == status_decided(
                old(self)@,
                v@,
                parked(old(jobs)@),
            ),
            old(self)@.wf() ==> final(self)@.wf(),
    {
        let ghost before = jobs@;
        let state: String = match v.get_str("state") {
            Some(s) => s.clone(),
            None => "".to_owned(),
        };
        if same_text(state.as_str(), "offered") || same_text(state.as_str(), "rendered") {
            return done(
                Json::object().with("ok", Json::Bool(true)).with("state", Json::text("awaiting_approval")),
            );
        }
        if !same_text(state.as_str(), "settled") {
            return failed(
                joined("unexpected approval state ", debug_text(state.as_str()).as_str()).as_str(),
            );
        }
        let reason: Option<&String> = v.get_str("reason");
        let approved: bool = match reason {
            Some(s) => same_text(s.as_str(), "approved"),
            None => false,
        };
        if !approved {
            let reason: String = match reason {
                Some(s) => s.clone(),
                None => "settled".to_owned(),
            };
            let _ = jobs.remove(self.request_id.as_str());
            assert(parked(jobs@) =~= parked(before).remove(self@.request_id));
            return done(
                Json::object().with("ok", Json::Bool(true)).with("state", Json::text("declined")).with(
                    "reason",
                    Json::Str(reason),
                ),
            );
        }
        self.stage = StatusStage::Fetch;
        turn(Step::Call(Call::KeystoreFetchResult(self.request_id.clone(), self.receipt.clone())))
    }

    /// A step on the fetched result.
    fn fetched(&mut self, v: &Json, jobs: &mut StrMap<PendingJob>) -> (r: Turn)
        ensures
            (final(self)@, parked(final(jobs)@), r@) == status_fetched(
                old(self)@,
                v@,
                parked(old(jobs)@),
            ),
            old(self)@.wf() ==> final(self)@.wf(),
    {
        let ghost before = jobs@;
        let raw: String = match signed(v) {
            Some(raw) => raw,
            None => return failed("keystore: approval produced no signatures"),
        };
        match jobs.remove(self.request_id.as_str()) {
            None => {
                assert(jobs@ =~= before);
                failed("unknown request")
            },
            Some(job) => {
                assert(parked(jobs@) =~= parked(before).remove(self@.request_id));
                self.stage = StatusStage::Broadcast;
                self.pending = Some(job.record);
                turn(Step::Call(Call::EthSendRawTransaction(job.chain_id as i64, raw)))
            },
        }
    }

    /// A step on the reply to the broadcast.
    fn sent(&mut self, v: &Json) -> (r: Turn)
        requires
            old(self)@.pending is Some,
        ensures
            (final(self)@, r@) == status_sent(old(self)@, v@),
            old(self)@.wf() ==> final(self)@.wf(),
    {
        let hash: String = match v.get_str("hash") {
            Some(h) => h.clone(),
            None => return failed("broadcast: no hash"),
        };
        let ghost before = self@;
        let mut record: TxRecord = self.pending.take().unwrap();
        record.hash = hash.clone();
        self.hash = hash.clone();
        self.stage = StatusStage::Ack;
        let ghost recorded = record@;
        let mut effects: Vec<Effect> = Vec::new();
        effects.push(Effect::RecordTx(record));
        effects.push(Effect::TxStatusChanged(hash));
        // The keystore may drop its copy now. The transaction is on the chain
        // whatever comes of this call.
        let r = Turn {
            effects,
            next: Step::Call(
                Call::KeystoreAckResult(self.request_id.clone(), self.receipt.clone()),
            ),
        };
        proof {
            assert(self@ == StatusView {
                stage: StatusStage::Ack,
                pending: None,
                hash: hash@,
                ..before
            });
            assert(recorded == TxRecordView { hash: hash@, ..before.pending->0 });
            assert(r@.effects =~= seq![
                EffectView::RecordTx(recorded),
                EffectView::TxStatusChanged(hash@),
            ]);
            assert(r@.effects =~= status_sent(before, v@).1.effects);
        }
        r
    }

    /// One step, on a reply already read.
    pub fn advance(&mut self, reply: Option<Result<Json, String>>, jobs: &mut StrMap<PendingJob>) -> (r:
        Turn)
        requires
            old(self)@.wf(),
        ensures
            final(self)@.wf(),
            (final(self)@, parked(final(jobs)@), r@) == status_next(
                old(self)@,
                opt_res_json(reply),
                parked(old(jobs)@),
            ),
    {
        let reply: Result<Json, String> = match reply {
            Some(r) => r,
            None => {
                return turn(
                    Step::Call(
                        Call::KeystoreApprovalStatus(self.request_id.clone(), self.receipt.clone()),
                    ),
                );
            },
        };
        if let StatusStage::Ack = self.stage {
            return done(
                Json::object().with("ok", Json::Bool(true)).with("state", Json::text("done")).with(
                    "hash",
                    Json::text(self.hash.as_str()),
                ),
            );
        }
        let v: Json = match reply {
            Ok(v) => v,
            Err(e) => return failed(e.as_str()),
        };
        match self.stage {
            StatusStage::Status => self.decided(&v, jobs),
            StatusStage::Fetch => self.fetched(&v, jobs),
            _ => self.sent(&v),
        }
    }

    /// One step. `reply` is the text the last call gave, and nothing on the
    /// first step.
    pub fn step(&mut self, reply: Option<Result<String, String>>, jobs: &mut StrMap<PendingJob>) -> (r:
        Turn)
        requires
            old(self)@.wf(),
        ensures
            final(self)@.wf(),
            (final(self)@, parked(final(jobs)@), r@) == status_next(
                old(self)@,
                status_input(opt_res_text(reply)),
                parked(old(jobs)@),
            ),
    {
        let input: Option<Result<Json, String>> = match &reply {
            None => None,
            Some(r) => Some(reply_value(r)),
        };
        self.advance(input, jobs)
    }
}

} // verus!
