//! The orchestrator-side typed client for one node agent: it is bound to a
//! single server, computes the agent's base URL and endpoint URLs, and
//! interprets response envelopes. Transport failures (connect, timeout,
//! DNS) are kept apart from agent-reported failures: the two must never be
//! conflated.

use vstd::prelude::*;
use vstd::string::StringExecFns;

use crate::envelope::IgniterApiResult;
use crate::text::{i32_to_dec, int_dec_rep};

verus! {

/// The base URL of the agent at `address:port`.
pub open spec fn base_url_of(address: Seq<char>, port: int) -> Seq<char> {
    "http://"@ + address + seq![':'] + int_dec_rep(port)
}

/// A REST client bound to one node agent.
#[derive(Debug, Clone, PartialEq, Eq)]
pub struct IgniterRestClient {
    pub address: String,
    pub port: i32,
    pub base_url: String,
}

impl IgniterRestClient {
    /// Binds a client to one agent: the base URL is
    /// `http://{address}:{port}`.
    pub fn new(address: String, port: i32) -> (r: IgniterRestClient)
        ensures
            r.address == address,
            r.port == port,
            r.base_url@ == base_url_of(address@, port as int),
    {
        let mut base_url = String::from_str("http://");
        base_url.append(address.as_str());
        base_url.append(":");
        let p = i32_to_dec(port);
        base_url.append(p.as_str());
        proof {
            reveal_strlit(":");
            assert(base_url@ =~= base_url_of(address@, port as int));
        }
        IgniterRestClient { address, port, base_url }
    }

    /// The agent's base URL.
    pub fn get_base_url(&self) -> (r: &String)
        ensures
            r@ == self.base_url@,
    {
        &self.base_url
    }
}

/// The container-command surface of one node agent.
#[derive(Debug, Clone, PartialEq, Eq)]
pub struct ContainerRestCtr {
    pub rest_client: IgniterRestClient,
}

impl ContainerRestCtr {
    /// Wraps a bound client.
    pub fn new(client: IgniterRestClient) -> (r: ContainerRestCtr)
        ensures
            r.rest_client == client,
    {
        ContainerRestCtr { rest_client: client }
    }

    /// The run endpoint's URL.
    pub fn run_url(&self) -> (r: String)
        ensures
            r@ == self.rest_client.base_url@ + "/v1/containers/run"@,
    {
        let mut u = String::from_str(self.rest_client.base_url.as_str());
        u.append("/v1/containers/run");
        u
    }

    /// The inspect endpoint's URL.
    pub fn inspect_url(&self) -> (r: String)
        ensures
            r@ == self.rest_client.base_url@ + "/v1/containers/inspect"@,
    {
        let mut u = String::from_str(self.rest_client.base_url.as_str());
        u.append("/v1/containers/inspect");
        u
    }

    /// The list endpoint's URL.
    pub fn list_url(&self) -> (r: String)
        ensures
            r@ == self.rest_client.base_url@ + "/v1/containers/list"@,
    {
        let mut u = String::from_str(self.rest_client.base_url.as_str());
        u.append("/v1/containers/list");
        u
    }
}

/// How an agent call failed before any envelope arrived.
#[derive(Debug, Clone, Copy, PartialEq, Eq, Structural)]
pub enum TransportErrorKind {
    /// The bounded wait ran out.
    Timeout,
    /// The connection could not be established.
    Connect,
    /// The agent's name could not be resolved.
    Dns,
    /// Any other transport-level failure.
    Other,
}

/// Why one agent call yielded no payload: the transport failed, or the
/// agent itself reported failure in its envelope.
#[derive(Debug, Clone, PartialEq, Eq)]
pub enum AgentCallError {
    Transport(TransportErrorKind, String),
    Agent(String),
}

/// Classifies a transport-level failure from what the transport reports of
/// it. This is never used for an envelope with `is_success == false`: an
/// agent-reported failure is not a transport error.
pub fn classify_transport(
    is_timeout: bool,
    is_connect: bool,
    is_dns: bool,
    message: String,
) -> (r: AgentCallError)
    ensures
        r == AgentCallError::Transport(
            (if is_timeout {
                TransportErrorKind::Timeout
            } else if is_connect {
                TransportErrorKind::Connect
            } else if is_dns {
                TransportErrorKind::Dns
            } else {
                TransportErrorKind::Other
            }),
            message,
        ),
{
    let kind = if is_timeout {
        TransportErrorKind::Timeout
    } else if is_connect {
        TransportErrorKind::Connect
    } else if is_dns {
        TransportErrorKind::Dns
    } else {
        TransportErrorKind::Other
    };
    AgentCallError::Transport(kind, message)
}

/// Reads an envelope that did arrive: per the wire contract the transport
/// status says nothing, only the envelope decides. A success envelope
/// yields its (possibly absent) payload; a failure envelope yields an
/// agent error with the agent's message (empty if the agent sent none).
pub fn interpret_envelope<T>(env: IgniterApiResult<T>) -> (r: Result<Option<T>, AgentCallError>)
    ensures
        env.is_success ==> r == Ok::<Option<T>, AgentCallError>(env.data),
        !env.is_success ==> (r matches Err(AgentCallError::Agent(m)) && (match env.error {
            Some(e) => m == e,
            None => m@ == Seq::<char>::empty(),
        })),
{
    if env.is_success {
        Ok(env.data)
    } else {
        match env.error {
            Some(e) => Err(AgentCallError::Agent(e)),
            None => Err(AgentCallError::Agent(String::new())),
        }
    }
}

} // verus!
