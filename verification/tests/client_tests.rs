use std::time::{Duration, Instant};

use orchestrator::client::{
    classify_transport, interpret_envelope, AgentCallError, ContainerRestCtr, IgniterRestClient,
    TransportErrorKind,
};
use orchestrator::envelope::IgniterApiResult;
use orchestrator::resource::ResourceType;
use orchestrator::run::RunContainerResult;

#[test]
fn base_url_is_computed_from_address_and_port() {
    let client = IgniterRestClient::new("10.0.0.7".to_string(), 8000);
    assert_eq!(client.get_base_url(), "http://10.0.0.7:8000");
    assert_eq!(client.address, "10.0.0.7");
    assert_eq!(client.port, 8000);
    let named = IgniterRestClient::new("edge1.example".to_string(), 80);
    assert_eq!(named.get_base_url(), "http://edge1.example:80");
}

#[test]
fn endpoint_urls_extend_the_base_url() {
    let ctr = ContainerRestCtr::new(IgniterRestClient::new("edge1".to_string(), 8000));
    assert_eq!(ctr.run_url(), "http://edge1:8000/v1/containers/run");
    assert_eq!(ctr.inspect_url(), "http://edge1:8000/v1/containers/inspect");
    assert_eq!(ctr.list_url(), "http://edge1:8000/v1/containers/list");
}

#[test]
fn port_zero_and_negative_ports_render_as_given() {
    assert_eq!(
        IgniterRestClient::new("h".to_string(), 0).get_base_url(),
        "http://h:0"
    );
    assert_eq!(
        IgniterRestClient::new("h".to_string(), -1).get_base_url(),
        "http://h:-1"
    );
}

#[test]
fn a_failure_envelope_without_message_yields_an_empty_agent_error() {
    let env: IgniterApiResult<RunContainerResult> =
        IgniterApiResult { is_success: false, data: None, error: None };
    match interpret_envelope(env) {
        Err(AgentCallError::Agent(message)) => assert_eq!(message, ""),
        other => panic!("expected an agent error, got {:?}", other),
    }
}

#[test]
fn success_envelopes_yield_their_payload() {
    let env = IgniterApiResult::succeed(Some(RunContainerResult { id: "4fa6".to_string() }));
    let out = interpret_envelope(env).unwrap();
    assert_eq!(out.unwrap().id, "4fa6");
}

#[test]
fn failure_envelopes_are_agent_errors_not_transport_errors() {
    let env: IgniterApiResult<RunContainerResult> =
        IgniterApiResult::failure("No such image: nginx".to_string());
    match interpret_envelope(env) {
        Err(AgentCallError::Agent(message)) => assert_eq!(message, "No such image: nginx"),
        other => panic!("expected an agent error, got {:?}", other),
    }
}

#[test]
fn transport_failures_are_classified_by_kind() {
    let timeout = classify_transport(true, false, false, "deadline elapsed".to_string());
    assert_eq!(
        timeout,
        AgentCallError::Transport(TransportErrorKind::Timeout, "deadline elapsed".to_string())
    );
    let connect = classify_transport(false, true, false, "connection refused".to_string());
    assert_eq!(
        connect,
        AgentCallError::Transport(TransportErrorKind::Connect, "connection refused".to_string())
    );
    let dns = classify_transport(false, false, true, "name not found".to_string());
    assert_eq!(
        dns,
        AgentCallError::Transport(TransportErrorKind::Dns, "name not found".to_string())
    );
    let other = classify_transport(false, false, false, "broken pipe".to_string());
    assert_eq!(
        other,
        AgentCallError::Transport(TransportErrorKind::Other, "broken pipe".to_string())
    );
}

#[test]
fn unreachable_agent_surfaces_a_transport_error_within_the_timeout() {
    // Target a port nothing listens on: run_container's transport must fail
    // with a transport error kind, within the configured bound, never hang.
    let ctr = ContainerRestCtr::new(IgniterRestClient::new("127.0.0.1".to_string(), 9));
    let http = reqwest::blocking::Client::builder()
        .connect_timeout(Duration::from_secs(2))
        .timeout(Duration::from_secs(2))
        .build()
        .unwrap();
    let started = Instant::now();
    let sent = http
        .post(ctr.run_url())
        .body("{\"name\":\"web-edge1-0\",\"image\":\"nginx\"}")
        .send();
    assert!(started.elapsed() < Duration::from_secs(10));
    let err = sent.expect_err("nothing listens on 127.0.0.1:9");
    let classified = classify_transport(err.is_timeout(), err.is_connect(), false, err.to_string());
    match classified {
        AgentCallError::Transport(kind, _) => assert!(
            kind == TransportErrorKind::Timeout
                || kind == TransportErrorKind::Connect
                || kind == TransportErrorKind::Other
        ),
        AgentCallError::Agent(message) => {
            panic!("a transport failure must never look agent-reported: {}", message)
        }
    }
}

#[test]
fn resource_kind_keywords_parse() {
    assert_eq!(
        ResourceType::from_string(&"executable".to_string()),
        ResourceType::Executable
    );
    assert_eq!(
        ResourceType::from_string(&"container".to_string()),
        ResourceType::Container
    );
}
