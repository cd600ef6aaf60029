//! What a method asks of the outside, one thing at a time.
//!
//! A method that leaves the process is a flow: a state machine that is handed
//! the reply to its last request and says what it wants next. A host drives it
//! either by waiting for each reply or from callbacks; the flow is the same.

use crate::address::Address;
use crate::amount::U256;
use crate::json::{err, Json, JsonView};
use crate::jobs::opt_text;
use vstd::prelude::*;

verus! {

/// One outbound call to a dependency.
pub enum Call {
    EthVerifyChainId(i64),
    EthTransactionCount(i64, String),
    EthEstimateGas(i64, String),
    EthSendRawTransaction(i64, String),
    EthTransactionReceipt(i64, String),
    KeystoreRequestApproval(String),
    KeystoreApprovalStatus(String, String),
    KeystoreFetchResult(String, String),
    KeystoreAckResult(String, String),
    KeystoreImportMnemonic(String),
    KeystoreListAccounts,
    TokenListGetTokens(i64),
    TokenListAddCustomToken(String),
    FeeEstimate(i64, String),
}

/// What a [`Call`] asks for.
pub enum CallView {
    EthVerifyChainId(i64),
    EthTransactionCount(i64, Seq<char>),
    EthEstimateGas(i64, Seq<char>),
    EthSendRawTransaction(i64, Seq<char>),
    EthTransactionReceipt(i64, Seq<char>),
    KeystoreRequestApproval(Seq<char>),
    KeystoreApprovalStatus(Seq<char>, Seq<char>),
    KeystoreFetchResult(Seq<char>, Seq<char>),
    KeystoreAckResult(Seq<char>, Seq<char>),
    KeystoreImportMnemonic(Seq<char>),
    KeystoreListAccounts,
    TokenListGetTokens(i64),
    TokenListAddCustomToken(Seq<char>),
    FeeEstimate(i64, Seq<char>),
}

impl View for Call {
    type V = CallView;

    open spec fn view(&self) -> CallView {
        match self {
            Call::EthVerifyChainId(c) => CallView::EthVerifyChainId(*c),
            Call::EthTransactionCount(c, a) => CallView::EthTransactionCount(*c, a@),
            Call::EthEstimateGas(c, a) => CallView::EthEstimateGas(*c, a@),
            Call::EthSendRawTransaction(c, a) => CallView::EthSendRawTransaction(*c, a@),
            Call::EthTransactionReceipt(c, a) => CallView::EthTransactionReceipt(*c, a@),
            Call::KeystoreRequestApproval(a) => CallView::KeystoreRequestApproval(a@),
            Call::KeystoreApprovalStatus(a, b) => CallView::KeystoreApprovalStatus(a@, b@),
            Call::KeystoreFetchResult(a, b) => CallView::KeystoreFetchResult(a@, b@),
            Call::KeystoreAckResult(a, b) => CallView::KeystoreAckResult(a@, b@),
            Call::KeystoreImportMnemonic(a) => CallView::KeystoreImportMnemonic(a@),
            Call::KeystoreListAccounts => CallView::KeystoreListAccounts,
            Call::TokenListGetTokens(c) => CallView::TokenListGetTokens(*c),
            Call::TokenListAddCustomToken(a) => CallView::TokenListAddCustomToken(a@),
            Call::FeeEstimate(c, a) => CallView::FeeEstimate(*c, a@),
        }
    }
}

/// The fee a transaction offers.
#[derive(Debug, Clone, Copy, PartialEq, Eq)]
pub enum Fee {
    Eip1559 { max_fee_per_gas: U256, max_priority_fee_per_gas: U256 },
}

/// What a [`Fee`] offers: at most so much for a unit of gas, and so much of it
/// as a tip.
pub enum FeeView {
    Eip1559 { max_fee_per_gas: nat, max_priority_fee_per_gas: nat },
}

impl View for Fee {
    type V = FeeView;

    open spec fn view(&self) -> FeeView {
        match self {
            Fee::Eip1559 { max_fee_per_gas, max_priority_fee_per_gas } => FeeView::Eip1559 {
                max_fee_per_gas: max_fee_per_gas@,
                max_priority_fee_per_gas: max_priority_fee_per_gas@,
            },
        }
    }
}

/// A transaction to be built: a token transfer where `token` is given, else a
/// native one.
pub struct TxDraft {
    pub token: Option<Address>,
    pub to: Address,
    pub amount: U256,
    pub nonce: u64,
    pub gas_limit: u64,
    pub fee: Fee,
}

/// What a [`TxDraft`] holds.
pub struct TxDraftView {
    pub token: Option<Seq<u8>>,
    pub to: Seq<u8>,
    pub amount: nat,
    pub nonce: u64,
    pub gas_limit: u64,
    pub fee: FeeView,
}

/// The bytes of an optional address.
pub open spec fn opt_bytes(a: Option<Address>) -> Option<Seq<u8>> {
    match a {
        Some(x) => Some(x@),
        None => None,
    }
}

impl View for TxDraft {
    type V = TxDraftView;

    open spec fn view(&self) -> TxDraftView {
        TxDraftView {
            token: opt_bytes(self.token),
            to: self.to@,
            amount: self.amount@,
            nonce: self.nonce,
            gas_limit: self.gas_limit,
            fee: self.fee@,
        }
    }
}

/// A transaction of this wallet, as its history keeps it.
pub struct TxRecord {
    pub hash: String,
    pub chain_id: u64,
    pub from: String,
    pub to: String,
    pub value: String,
    pub kind: String,
    pub token: Option<String>,
    pub status: String,
    pub timestamp: u64,
}

/// What a [`TxRecord`] says.
pub struct TxRecordView {
    pub hash: Seq<char>,
    pub chain_id: u64,
    pub from: Seq<char>,
    pub to: Seq<char>,
    pub value: Seq<char>,
    pub kind: Seq<char>,
    pub token: Option<Seq<char>>,
    pub status: Seq<char>,
    pub timestamp: u64,
}

impl View for TxRecord {
    type V = TxRecordView;

    open spec fn view(&self) -> TxRecordView {
        TxRecordView {
            hash: self.hash@,
            chain_id: self.chain_id,
            from: self.from@,
            to: self.to@,
            value: self.value@,
            kind: self.kind@,
            token: opt_text(self.token),
            status: self.status@,
            timestamp: self.timestamp,
        }
    }
}

/// A transaction parked on a human: to be broadcast and recorded once approved.
pub struct PendingJob {
    pub chain_id: u64,
    pub receipt: String,
    pub record: TxRecord,
}

/// What a [`PendingJob`] holds.
pub struct PendingView {
    pub chain_id: u64,
    pub receipt: Seq<char>,
    pub record: TxRecordView,
}

impl View for PendingJob {
    type V = PendingView;

    open spec fn view(&self) -> PendingView {
        PendingView { chain_id: self.chain_id, receipt: self.receipt@, record: self.record@ }
    }
}

/// The parked transactions, by approval handle.
pub open spec fn parked(jobs: Map<Seq<char>, PendingJob>) -> Map<Seq<char>, PendingView> {
    jobs.map_values(|p: PendingJob| p@)
}

/// Something the host has to do besides answering.
pub enum Effect {
    /// Add the transaction to the history of its sender.
    RecordTx(TxRecord),
    /// Give a recorded transaction its final status, in whichever history has it.
    UpdateTxStatus(String, String),
    /// Tell subscribers that a transaction's status may have changed.
    TxStatusChanged(String),
    /// Keep a label for an account.
    LabelAccount(String, String),
}

/// What an [`Effect`] is.
pub enum EffectView {
    RecordTx(TxRecordView),
    UpdateTxStatus(Seq<char>, Seq<char>),
    TxStatusChanged(Seq<char>),
    LabelAccount(Seq<char>, Seq<char>),
}

impl View for Effect {
    type V = EffectView;

    open spec fn view(&self) -> EffectView {
        match self {
            Effect::RecordTx(r) => EffectView::RecordTx(r@),
            Effect::UpdateTxStatus(a, b) => EffectView::UpdateTxStatus(a@, b@),
            Effect::TxStatusChanged(a) => EffectView::TxStatusChanged(a@),
            Effect::LabelAccount(a, b) => EffectView::LabelAccount(a@, b@),
        }
    }
}

/// What a flow wants next.
pub enum Step {
    /// One more outbound call; its reply is the next input.
    Call(Call),
    /// An unsigned transaction; its JSON text is the next input.
    Build(TxDraft),
    /// Nothing: this is its answer.
    Done(String),
}

/// What a [`Step`] is.
pub enum StepView {
    Call(CallView),
    Build(TxDraftView),
    Done(Seq<char>),
}

impl View for Step {
    type V = StepView;

    open spec fn view(&self) -> StepView {
        match self {
            Step::Call(c) => StepView::Call(c@),
            Step::Build(d) => StepView::Build(d@),
            Step::Done(s) => StepView::Done(s@),
        }
    }
}

/// The outcome of one step: what to do at once, in order, and what comes next.
pub struct Turn {
    pub effects: Vec<Effect>,
    pub next: Step,
}

/// What a [`Turn`] is.
pub struct TurnView {
    pub effects: Seq<EffectView>,
    pub next: StepView,
}

impl View for Turn {
    type V = TurnView;

    open spec fn view(&self) -> TurnView {
        TurnView { effects: self.effects@.map_values(|e: Effect| e@), next: self.next@ }
    }
}

/// A turn without effects.
pub open spec fn quiet(next: StepView) -> TurnView {
    TurnView { effects: Seq::empty(), next }
}

/// A turn that ends the flow with this answer.
pub open spec fn answer_with(value: JsonView) -> TurnView {
    quiet(StepView::Done(crate::json::json_text(value)))
}

/// A turn without effects.
pub fn turn(next: Step) -> (r: Turn)
    ensures
        r@ == quiet(next@),
{
    let r = Turn { effects: Vec::new(), next };
    assert(r@.effects =~= Seq::<EffectView>::empty());
    r
}

/// A turn that ends the flow with an answer.
pub fn done(value: Json) -> (r: Turn)
    ensures
        r@ == answer_with(value@),
{
    turn(Step::Done(value.render()))
}

/// A turn that ends the flow with the error envelope.
pub fn failed(e: &str) -> (r: Turn)
    ensures
        r@ == answer_with(crate::json::err_json(e@)),
{
    turn(Step::Done(err(e)))
}

} // verus!
