//! What the host hands to a call and takes back from it.

use vstd::prelude::*;

verus! {

/// An amount of a native coin.
#[derive(Debug, PartialEq, Eq)]
pub struct Coin {
    pub denom: String,
    pub amount: u128,
}

/// What a [`Coin`] stands for.
pub struct CoinView {
    pub denom: Seq<char>,
    pub amount: u128,
}

impl DeepView for Coin {
    type V = CoinView;

    open spec fn deep_view(&self) -> CoinView {
        CoinView { denom: self.denom@, amount: self.amount }
    }
}

/// The contract that is called.
#[derive(Debug, PartialEq, Eq)]
pub struct ContractInfo {
    pub address: String,
}

/// The circumstances of a call, as far as a call reads them.
#[derive(Debug, PartialEq, Eq)]
pub struct Env {
    pub contract: ContractInfo,
}

/// Who calls, and the native coins sent along with the call.
#[derive(Debug, PartialEq, Eq)]
pub struct MessageInfo {
    pub sender: String,
    pub funds: Vec<Coin>,
}

/// A key and a value for whoever observes the call.
#[derive(Debug, PartialEq, Eq)]
pub struct Attribute {
    pub key: String,
    pub value: String,
}

/// What an [`Attribute`] stands for.
pub struct AttributeView {
    pub key: Seq<char>,
    pub value: Seq<char>,
}

impl DeepView for Attribute {
    type V = AttributeView;

    open spec fn deep_view(&self) -> AttributeView {
        AttributeView { key: self.key@, value: self.value@ }
    }
}

/// A request to the host: execute `msg` on the contract at `contract_addr`
/// and send `funds` along.
#[derive(Debug, PartialEq, Eq)]
pub struct WasmExecute {
    pub contract_addr: String,
    pub msg: Vec<u8>,
    pub funds: Vec<Coin>,
}

/// What a [`WasmExecute`] stands for.
pub struct WasmExecuteView {
    pub contract_addr: Seq<char>,
    pub msg: Seq<u8>,
    pub funds: Seq<CoinView>,
}

impl DeepView for WasmExecute {
    type V = WasmExecuteView;

    open spec fn deep_view(&self) -> WasmExecuteView {
        WasmExecuteView {
            contract_addr: self.contract_addr@,
            msg: self.msg@,
            funds: self.funds.deep_view(),
        }
    }
}

/// What a successful call answers: the requests to carry out, in order, and
/// the attributes that say what was done.
#[derive(Debug, PartialEq, Eq)]
pub struct Response {
    pub messages: Vec<WasmExecute>,
    pub attributes: Vec<Attribute>,
}

/// What a [`Response`] stands for.
#[verifier::ext_equal]
pub struct ResponseView {
    pub messages: Seq<WasmExecuteView>,
    pub attributes: Seq<AttributeView>,
}

impl View for Response {
    type V = ResponseView;

    open spec fn view(&self) -> ResponseView {
        ResponseView {
            messages: self.messages.deep_view(),
            attributes: self.attributes.deep_view(),
        }
    }
}

/// The answer that says `action` was done and asks for `messages`.
pub open spec fn acted(action: Seq<char>, messages: Seq<WasmExecuteView>) -> ResponseView {
    ResponseView {
        messages,
        attributes: seq![AttributeView { key: "action"@, value: action }],
    }
}

impl Response {
    /// The answer that carries one attribute, `key` with `value`, and `messages`.
    pub fn with_attribute(key: &str, value: &str, messages: Vec<WasmExecute>) -> (response: Self)
        ensures
            response@ == (ResponseView {
                messages: messages.deep_view(),
                attributes: seq![AttributeView { key: key@, value: value@ }],
            }),
    {
        let mut attributes: Vec<Attribute> = Vec::new();
        attributes.push(Attribute { key: key.to_owned(), value: value.to_owned() });
        let response = Response { messages, attributes };
        assert(response@.attributes =~= seq![AttributeView { key: key@, value: value@ }]);
        response
    }
}

} // verus!
