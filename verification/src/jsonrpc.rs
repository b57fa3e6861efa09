//! The classification client: the JSON-RPC requests that ask a node about an address, the
//! replies, and the rule that tells a contract from a plain account.

use vstd::prelude::*;

verus! {

/// One positional parameter of a JSON-RPC request.
#[derive(Debug, Clone, PartialEq, Eq)]
pub enum Params {
    String(String),
    Boolean(bool),
}

/// A JSON-RPC request as it is posted to an endpoint.
#[derive(Debug, Clone, PartialEq, Eq)]
pub struct EthRequest {
    pub jsonrpc: String,
    pub method: String,
    pub params: [Params; 2],
    pub id: i32,
}

/// A transaction of a block: its sender and its receiver.
#[derive(Debug, Clone, PartialEq, Eq)]
pub struct EthTransactionObj {
    pub from: String,
    pub to: String,
}

/// The transactions of a block.
#[derive(Debug, Clone, PartialEq, Eq)]
pub struct EthTransactions {
    pub transactions: Vec<EthTransactionObj>,
}

/// The reply to a request for a block with its transactions.
#[derive(Debug, Clone, PartialEq, Eq)]
pub struct EthBlockTxResponse {
    pub result: EthTransactions,
}

/// The reply to a request for the code at an address: the code as a hex string.
#[derive(Debug, Clone, PartialEq, Eq)]
pub struct EthBlockCtResponse {
    pub result: String,
}

/// A failure of the transport: the connection, a timeout, a status other than success, or
/// a reply that could not be read. `detail` is the message to log.
#[derive(Debug, Clone, PartialEq, Eq)]
pub struct TransportError {
    pub detail: String,
}

/// A classification request and, once it has been answered, its result. `count` is the
/// number of attempts made for the address so far; it travels with the request through
/// every retry.
#[derive(Debug, Clone, PartialEq, Eq)]
pub struct IsContractResponse {
    pub address: String,
    pub is_contract: bool,
    pub count: u8,
}

/// A failed attempt: the request, with the attempt counted, and what went wrong.
#[derive(Debug, Clone, PartialEq, Eq)]
pub struct IsContractErr {
    pub container: IsContractResponse,
    pub error: TransportError,
}

/// What the contracts say of a positional parameter.
pub enum ParamsView {
    String(Seq<char>),
    Boolean(bool),
}

/// What the contracts say of a request.
pub struct EthRequestView {
    pub jsonrpc: Seq<char>,
    pub method: Seq<char>,
    pub params: Seq<ParamsView>,
    pub id: int,
}

/// What the contracts say of a classification request.
pub struct ContainerView {
    pub address: Seq<char>,
    pub is_contract: bool,
    pub count: nat,
}

/// What the contracts say of a failed attempt.
pub struct FailureView {
    pub container: ContainerView,
    pub error: Seq<char>,
}

impl View for Params {
    type V = ParamsView;

    open spec fn view(&self) -> ParamsView {
        match self {
            Params::String(text) => ParamsView::String(text@),
            Params::Boolean(flag) => ParamsView::Boolean(*flag),
        }
    }
}

impl View for EthRequest {
    type V = EthRequestView;

    open spec fn view(&self) -> EthRequestView {
        EthRequestView {
            jsonrpc: self.jsonrpc@,
            method: self.method@,
            params: seq![self.params[0]@, self.params[1]@],
            id: self.id as int,
        }
    }
}

impl View for TransportError {
    type V = Seq<char>;

    open spec fn view(&self) -> Seq<char> {
        self.detail@
    }
}

impl View for IsContractResponse {
    type V = ContainerView;

    open spec fn view(&self) -> ContainerView {
        ContainerView {
            address: self.address@,
            is_contract: self.is_contract,
            count: self.count as nat,
        }
    }
}

impl View for IsContractErr {
    type V = FailureView;

    open spec fn view(&self) -> FailureView {
        FailureView { container: self.container@, error: self.error@ }
    }
}

impl ContainerView {
    /// A request for `address` for which no attempt has been made.
    pub open spec fn fresh(address: Seq<char>) -> ContainerView {
        ContainerView { address, is_contract: false, count: 0 }
    }

    /// The request after one more attempt has been started for it.
    pub open spec fn attempted(self) -> ContainerView {
        ContainerView { count: self.count + 1, ..self }
    }
}

impl EthRequest {
    /// The request that asks for the code at `address` in the latest block.
    pub fn get_code(address: &str) -> (request: EthRequest)
        ensures
            request@ == (EthRequestView {
                jsonrpc: "2.0"@,
                method: "eth_getCode"@,
                params: seq![ParamsView::String(address@), ParamsView::String("latest"@)],
                id: 1,
            }),
    {
        EthRequest {
            jsonrpc: "2.0".to_owned(),
            method: "eth_getCode".to_owned(),
            params: [Params::String(address.to_owned()), Params::String("latest".to_owned())],
            id: 1,
        }
    }

    /// The request that asks for the latest block with its transactions in full.
    pub fn get_latest_block() -> (request: EthRequest)
        ensures
            request@ == (EthRequestView {
                jsonrpc: "2.0"@,
                method: "eth_getBlockByNumber"@,
                params: seq![ParamsView::String("latest"@), ParamsView::Boolean(true)],
                id: 1,
            }),
    {
        EthRequest {
            jsonrpc: "2.0".to_owned(),
            method: "eth_getBlockByNumber".to_owned(),
            params: [Params::String("latest".to_owned()), Params::Boolean(true)],
            id: 1,
        }
    }
}

impl IsContractResponse {
    /// A request for `address` for which no attempt has been made.
    pub fn new(address: String) -> (container: IsContractResponse)
        ensures
            container@ == ContainerView::fresh(address@),
    {
        IsContractResponse { address, is_contract: false, count: 0 }
    }
}

/// Whether the code that a node returned for an address is that of a contract. A plain
/// account has no code, and the node answers with the placeholder `0x`: anything longer
/// than two characters is code.
pub open spec fn is_contract_code(code: Seq<char>) -> bool {
    code.len() > 2
}

/// Whether `code`, the reply to a code lookup, is that of a contract.
pub fn has_code(code: &str) -> (b: bool)
    ensures
        b == is_contract_code(code@),
{
    code.unicode_len() > 2
}

/// What one attempt makes of a request, given what the transport returned for it.
pub open spec fn attempt_outcome(
    container: ContainerView,
    reply: Result<Seq<char>, Seq<char>>,
) -> Result<ContainerView, FailureView> {
    match reply {
        Ok(code) => Ok(
            ContainerView { is_contract: is_contract_code(code), ..container.attempted() },
        ),
        Err(error) => Err(FailureView { container: container.attempted(), error }),
    }
}

/// What the contracts say of the transport's answer to a code lookup.
pub open spec fn reply_view(reply: Result<EthBlockCtResponse, TransportError>) -> Result<
    Seq<char>,
    Seq<char>,
> {
    match reply {
        Ok(response) => Ok(response.result@),
        Err(error) => Err(error@),
    }
}

/// What the contracts say of the result of an attempt.
pub open spec fn outcome_view(outcome: Result<IsContractResponse, IsContractErr>) -> Result<
    ContainerView,
    FailureView,
> {
    match outcome {
        Ok(container) => Ok(container@),
        Err(failure) => Err(failure@),
    }
}

/// Completes one attempt for `container`. The attempt is counted, whatever came of it. A
/// reply classifies the address by its code; a failure of the transport is handed on with
/// the request, and says nothing about the address.
pub fn is_contract(
    container: IsContractResponse,
    reply: Result<EthBlockCtResponse, TransportError>,
) -> (outcome: Result<IsContractResponse, IsContractErr>)
    requires
        container.count < u8::MAX,
    ensures
        outcome_view(outcome) == attempt_outcome(container@, reply_view(reply)),
{
    let mut container = container;
    container.count = container.count + 1;
    match reply {
        Ok(response) => {
            container.is_contract = has_code(response.result.as_str());
            Ok(container)
        },
        Err(error) => Err(IsContractErr { container, error }),
    }
}

} // verus!
