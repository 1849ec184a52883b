use orchestrator::status::ContainerStateStatusEnum;

const ROUND_TRIP_MEMBERS: [(ContainerStateStatusEnum, &str); 8] = [
    (ContainerStateStatusEnum::EMPTY, ""),
    (ContainerStateStatusEnum::CREATED, "created"),
    (ContainerStateStatusEnum::RUNNING, "running"),
    (ContainerStateStatusEnum::PAUSED, "paused"),
    (ContainerStateStatusEnum::RESTARTING, "restarting"),
    (ContainerStateStatusEnum::REMOVING, "removing"),
    (ContainerStateStatusEnum::EXITED, "exited"),
    (ContainerStateStatusEnum::DEAD, "dead"),
];

#[test]
fn every_member_but_unknown_round_trips() {
    for (status, token) in ROUND_TRIP_MEMBERS {
        assert_eq!(status.as_str(), token);
        assert_eq!(ContainerStateStatusEnum::from_wire(token), Ok(status));
        assert_eq!(ContainerStateStatusEnum::normalize(token), status);
    }
}

#[test]
fn unknown_is_produced_but_never_parsed() {
    assert_eq!(ContainerStateStatusEnum::UNKNOWN.as_str(), "unknown");
    assert!(ContainerStateStatusEnum::from_wire("unknown").is_err());
    assert_eq!(
        ContainerStateStatusEnum::normalize("unknown"),
        ContainerStateStatusEnum::UNKNOWN
    );
}

#[test]
fn unrecognized_token_is_a_strict_parse_error() {
    let r = ContainerStateStatusEnum::from_wire("bogus");
    assert_eq!(r, Err("Invalid enum type: bogus".to_string()));
}

#[test]
fn normalize_degrades_unrecognized_tokens_to_unknown() {
    assert_eq!(
        ContainerStateStatusEnum::normalize("bogus"),
        ContainerStateStatusEnum::UNKNOWN
    );
    assert_eq!(
        ContainerStateStatusEnum::normalize("Running"),
        ContainerStateStatusEnum::UNKNOWN
    );
}

#[test]
fn empty_token_is_the_empty_status() {
    assert_eq!(
        ContainerStateStatusEnum::from_wire(""),
        Ok(ContainerStateStatusEnum::EMPTY)
    );
    assert_eq!(ContainerStateStatusEnum::EMPTY.to_wire_string(), "");
}
