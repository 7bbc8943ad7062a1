//! Decoding of raw bridge logs into typed events.
//!
//! A raw log is decoded against the layout of its event by the ABI decoder of
//! `ethers`. What the decoder hands back is then read by position: a deposit
//! is `(token, from, to, amount, nonce)`, a distribution is
//! `(token, to, amount, nonce)`. A log that does not have that shape is an
//! error; nothing of it is recovered.

use vstd::prelude::*;
use crate::models::{Address, DepositEvent, DistributionEvent, U256};
use ethers::abi::{Event as AbiEvent, EventParam as AbiParam, Log as AbiLog, ParamType, RawLog as AbiRawLog, Token};
use ethers::types::H256;

verus! {

/// The type of an event parameter. The bridge events use two.
#[derive(Clone, Copy, Debug, PartialEq, Eq)]
pub enum ParamKind {
    /// `address`
    Address,
    /// `uint256`
    Uint,
}

/// One parameter in the layout of an event.
#[derive(Clone, Debug, PartialEq, Eq)]
pub struct EventParam {
    pub name: String,
    pub kind: ParamKind,
    /// An indexed parameter travels in a topic of the log, another one in its data.
    pub indexed: bool,
}

/// Mathematical content of an [`EventParam`].
pub struct EventParamView {
    pub name: Seq<char>,
    pub kind: ParamKind,
    pub indexed: bool,
}

impl View for EventParam {
    type V = EventParamView;

    open spec fn view(&self) -> EventParamView {
        EventParamView { name: self.name@, kind: self.kind, indexed: self.indexed }
    }
}

/// The layout of an event as the contract's ABI declares it.
#[derive(Clone, Debug, PartialEq, Eq)]
pub struct EventLayout {
    pub name: String,
    pub inputs: Vec<EventParam>,
    pub anonymous: bool,
}

/// Mathematical content of an [`EventLayout`].
pub struct EventLayoutView {
    pub name: Seq<char>,
    pub inputs: Seq<EventParamView>,
    pub anonymous: bool,
}

impl View for EventLayout {
    type V = EventLayoutView;

    open spec fn view(&self) -> EventLayoutView {
        EventLayoutView {
            name: self.name@,
            inputs: self.inputs@.map_values(|p: EventParam| p@),
            anonymous: self.anonymous,
        }
    }
}

/// A log as a chain delivers it: topics and data.
#[derive(Clone, Debug, PartialEq, Eq)]
pub struct RawLog {
    pub topics: Vec<[u8; 32]>,
    pub data: Vec<u8>,
}

/// Mathematical content of a [`RawLog`].
pub struct RawLogView {
    pub topics: Seq<Seq<u8>>,
    pub data: Seq<u8>,
}

impl View for RawLog {
    type V = RawLogView;

    open spec fn view(&self) -> RawLogView {
        RawLogView { topics: self.topics@.map_values(|t: [u8; 32]| t@), data: self.data@ }
    }
}

/// A decoded event parameter.
#[derive(Clone, Copy, Debug, PartialEq, Eq)]
pub enum ParamValue {
    Address(Address),
    Uint(U256),
    /// A value of a type that the bridge events do not use.
    Other,
}

/// Why a log is not the event it was taken for.
#[derive(Clone, Copy, Debug, PartialEq, Eq)]
pub enum DecodeError {
    /// The ABI decoder rejected the log for the layout.
    Malformed,
    /// The log does not have as many parameters as the event.
    ParamCount,
    /// The parameter at this position does not have the type that the event has there.
    ParamType(usize),
}

/// What `ethers::abi::Event::parse_log` makes of a log with these topics and
/// this data, for an event of this layout: the decoded parameters in the
/// order of the layout's inputs, or `None` where it rejects the log.
pub uninterp spec fn parsed_log(layout: EventLayoutView, topics: Seq<Seq<u8>>, data: Seq<u8>) -> Option<Seq<ParamValue>>;

/// A decoded log of `ethers`, carried from the decoder to where its parameters are read.
#[verifier::external_type_specification]
#[verifier::external_body]
pub struct ExAbiLog(ethers::abi::Log);

/// The parameters that a decoded log of `ethers` holds, in order, each as a plain value.
pub uninterp spec fn log_params(log: ethers::abi::Log) -> Seq<ParamValue>;

/// Calls `ethers::abi::Event::parse_log` on an event built from `layout`
/// (`Uint` standing for `uint256`) and a raw log built from `log`. The
/// contract only names the outcome: the parameters of a returned log are
/// those of `parsed_log`, and `None` is returned where the decoder fails.
#[verifier::external_body]
fn abi_parse_log(layout: &EventLayout, log: &RawLog) -> (parsed: Option<AbiLog>)
    ensures
        match parsed {
            Some(decoded) => parsed_log(layout@, log@.topics, log@.data) == Some(log_params(decoded)),
            None => parsed_log(layout@, log@.topics, log@.data) is None,
        },
{
    let inputs = layout.inputs.iter().map(|p| AbiParam {
        name: p.name.clone(),
        kind: match p.kind {
            ParamKind::Address => ParamType::Address,
            ParamKind::Uint => ParamType::Uint(256),
        },
        indexed: p.indexed,
    }).collect();
    let event = AbiEvent { name: layout.name.clone(), inputs, anonymous: layout.anonymous };
    let topics = log.topics.iter().copied().map(H256).collect();
    event.parse_log(AbiRawLog { topics, data: log.data.clone() }).ok()
}

/// Hands out the parameters of a log that `ethers` decoded: an
/// `ethers::abi::Token::Address` by its twenty bytes, a `Token::Uint` by its
/// four limbs, any other token as `Other`.
#[verifier::external_body]
fn abi_log_values(log: &AbiLog) -> (values: Vec<ParamValue>)
    ensures
        values@ == log_params(*log),
{
    log.params.iter().map(|p| match &p.value {
        Token::Address(a) => ParamValue::Address(Address { bytes: a.0 }),
        Token::Uint(u) => ParamValue::Uint(U256 { limbs: u.0 }),
        _ => ParamValue::Other,
    }).collect()
}

/// The deposit that decoded parameters stand for: exactly five of them, three
/// addresses and then two unsigned integers.
pub open spec fn deposit_of_params(params: Seq<ParamValue>) -> Result<DepositEvent, DecodeError> {
    if params.len() != 5 {
        Err(DecodeError::ParamCount)
    } else if !(params[0] is Address) {
        Err(DecodeError::ParamType(0))
    } else if !(params[1] is Address) {
        Err(DecodeError::ParamType(1))
    } else if !(params[2] is Address) {
        Err(DecodeError::ParamType(2))
    } else if !(params[3] is Uint) {
        Err(DecodeError::ParamType(3))
    } else if !(params[4] is Uint) {
        Err(DecodeError::ParamType(4))
    } else {
        Ok(
            DepositEvent {
                token: params[0]->Address_0,
                from: params[1]->Address_0,
                to: params[2]->Address_0,
                amount: params[3]->Uint_0,
                nonce: params[4]->Uint_0,
            },
        )
    }
}

/// The distribution that decoded parameters stand for: exactly four of them,
/// two addresses and then two unsigned integers.
pub open spec fn distribution_of_params(params: Seq<ParamValue>) -> Result<
    DistributionEvent,
    DecodeError,
> {
    if params.len() != 4 {
        Err(DecodeError::ParamCount)
    } else if !(params[0] is Address) {
        Err(DecodeError::ParamType(0))
    } else if !(params[1] is Address) {
        Err(DecodeError::ParamType(1))
    } else if !(params[2] is Uint) {
        Err(DecodeError::ParamType(2))
    } else if !(params[3] is Uint) {
        Err(DecodeError::ParamType(3))
    } else {
        Ok(
            DistributionEvent {
                token: params[0]->Address_0,
                to: params[1]->Address_0,
                amount: params[2]->Uint_0,
                nonce: params[3]->Uint_0,
            },
        )
    }
}

/// The deposit that a log stands for under a layout.
pub open spec fn decoded_deposit(layout: EventLayoutView, log: RawLogView) -> Result<
    DepositEvent,
    DecodeError,
> {
    match parsed_log(layout, log.topics, log.data) {
        Some(params) => deposit_of_params(params),
        None => Err(DecodeError::Malformed),
    }
}

/// The distribution that a log stands for under a layout.
pub open spec fn decoded_distribution(layout: EventLayoutView, log: RawLogView) -> Result<
    DistributionEvent,
    DecodeError,
> {
    match parsed_log(layout, log.topics, log.data) {
        Some(params) => distribution_of_params(params),
        None => Err(DecodeError::Malformed),
    }
}

fn address_at(params: &Vec<ParamValue>, position: usize) -> (address: Result<Address, DecodeError>)
    requires
        position < params.len(),
    ensures
        address == match params[position as int] {
            ParamValue::Address(a) => Ok::<Address, DecodeError>(a),
            _ => Err::<Address, DecodeError>(DecodeError::ParamType(position)),
        },
{
    match params[position] {
        ParamValue::Address(a) => Ok(a),
        _ => Err(DecodeError::ParamType(position)),
    }
}

fn uint_at(params: &Vec<ParamValue>, position: usize) -> (uint: Result<U256, DecodeError>)
    requires
        position < params.len(),
    ensures
        uint == match params[position as int] {
            ParamValue::Uint(u) => Ok::<U256, DecodeError>(u),
            _ => Err::<U256, DecodeError>(DecodeError::ParamType(position)),
        },
{
    match params[position] {
        ParamValue::Uint(u) => Ok(u),
        _ => Err(DecodeError::ParamType(position)),
    }
}

/// Reads decoded parameters as a deposit `(token, from, to, amount, nonce)`.
pub fn deposit_from_params(params: &Vec<ParamValue>) -> (event: Result<DepositEvent, DecodeError>)
    ensures
        event == deposit_of_params(params@),
{
    if params.len() != 5 {
        return Err(DecodeError::ParamCount);
    }
    let token = address_at(params, 0)?;
    let from = address_at(params, 1)?;
    let to = address_at(params, 2)?;
    let amount = uint_at(params, 3)?;
    let nonce = uint_at(params, 4)?;
    Ok(DepositEvent { token, from, to, amount, nonce })
}

/// Reads decoded parameters as a distribution `(token, to, amount, nonce)`.
pub fn distribution_from_params(params: &Vec<ParamValue>) -> (event: Result<
    DistributionEvent,
    DecodeError,
>)
    ensures
        event == distribution_of_params(params@),
{
    if params.len() != 4 {
        return Err(DecodeError::ParamCount);
    }
    let token = address_at(params, 0)?;
    let to = address_at(params, 1)?;
    let amount = uint_at(params, 2)?;
    let nonce = uint_at(params, 3)?;
    Ok(DistributionEvent { token, to, amount, nonce })
}

/// Decodes a raw log as a deposit.
pub fn decode_deposit(layout: &EventLayout, log: &RawLog) -> (event: Result<DepositEvent, DecodeError>)
    ensures
        event == decoded_deposit(layout@, log@),
{
    match abi_parse_log(layout, log) {
        Some(parsed) => {
            let values = abi_log_values(&parsed);
            deposit_from_params(&values)
        },
        None => Err(DecodeError::Malformed),
    }
}

/// Decodes a raw log as a distribution.
pub fn decode_distribution(layout: &EventLayout, log: &RawLog) -> (event: Result<
    DistributionEvent,
    DecodeError,
>)
    ensures
        event == decoded_distribution(layout@, log@),
{
    match abi_parse_log(layout, log) {
        Some(parsed) => {
            let values = abi_log_values(&parsed);
            distribution_from_params(&values)
        },
        None => Err(DecodeError::Malformed),
    }
}


/// The name of a parameter type in a signature.
pub open spec fn kind_text(kind: ParamKind) -> Seq<char> {
    match kind {
        ParamKind::Address => seq!['a', 'd', 'd', 'r', 'e', 's', 's'],
        ParamKind::Uint => seq!['u', 'i', 'n', 't', '2', '5', '6'],
    }
}

/// The type names of `inputs`, separated by commas.
pub open spec fn kinds_text(inputs: Seq<EventParamView>) -> Seq<char>
    decreases inputs.len(),
{
    if inputs.len() == 0 {
        Seq::empty()
    } else if inputs.len() == 1 {
        kind_text(inputs[0].kind)
    } else {
        kinds_text(inputs.drop_last()) + seq![','] + kind_text(inputs.last().kind)
    }
}

/// What follows the closing bracket of a signature.
pub open spec fn anonymous_text(anonymous: bool) -> Seq<char> {
    if anonymous {
        seq![' ', 'a', 'n', 'o', 'n', 'y', 'm', 'o', 'u', 's']
    } else {
        Seq::empty()
    }
}

/// The signature of an event: its name, the types of its parameters in round
/// brackets, and the word `anonymous` after a blank where the event is so declared.
pub open spec fn signature_text(layout: EventLayoutView) -> Seq<char> {
    layout.name + seq!['('] + kinds_text(layout.inputs) + seq![')'] + anonymous_text(
        layout.anonymous,
    )
}

fn kind_str(kind: ParamKind) -> (text: &'static str)
    ensures
        text@ == kind_text(kind),
{
    proof {
        reveal_strlit("address");
        reveal_strlit("uint256");
    }
    let text = match kind {
        ParamKind::Address => "address",
        ParamKind::Uint => "uint256",
    };
    assert(text@ =~= kind_text(kind));
    text
}

impl EventLayout {
    /// Writes the signature by which logs of this event are subscribed to,
    /// such as `Deposit(address,address,address,uint256,uint256)`.
    pub fn abi_signature(&self) -> (text: String)
        ensures
            text@ == signature_text(self@),
    {
        proof {
            reveal_strlit("(");
            reveal_strlit(")");
            reveal_strlit(" anonymous");
        }
        let mut text = self.name.clone();
        text.append("(");
        let mut i: usize = 0;
        assert(self@.inputs.take(0) =~= Seq::empty());
        assert(text@ =~= self@.name + seq!['('] + kinds_text(self@.inputs.take(0)));
        while i < self.inputs.len()
            invariant
                i <= self.inputs.len(),
                text@ == self@.name + seq!['('] + kinds_text(self@.inputs.take(i as int)),
            decreases self.inputs.len() - i,
        {
            let ghost shorter = self@.inputs.take(i as int);
            let ghost longer = self@.inputs.take(i + 1);
            assert(longer.drop_last() =~= shorter);
            assert(longer.last().kind == self.inputs[i as int].kind);
            let ghost before = text@;
            if i > 0 {
                proof {
                    reveal_strlit(",");
                }
                text.append(",");
            }
            text.append(kind_str(self.inputs[i].kind));
            proof {
                let kind = self.inputs[i as int].kind;
                if i == 0 {
                    assert(longer.len() == 1);
                    assert(longer[0] == longer.last());
                    assert(kinds_text(shorter) =~= Seq::<char>::empty());
                    assert(kinds_text(longer) == kind_text(kind));
                    assert(text@ =~= before + kind_text(kind));
                } else {
                    assert(longer.len() == i + 1);
                    assert(kinds_text(longer) == kinds_text(shorter) + seq![','] + kind_text(kind));
                    assert(text@ =~= before + seq![','] + kind_text(kind));
                }
            }
            assert(text@ =~= self@.name + seq!['('] + kinds_text(longer));
            i = i + 1;
        }
        assert(self@.inputs.take(i as int) =~= self@.inputs);
        text.append(")");
        if self.anonymous {
            text.append(" anonymous");
        }
        assert(text@ =~= signature_text(self@));
        text
    }
}

} // verus!
