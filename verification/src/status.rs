//! The container lifecycle status vocabulary and its wire codec.
//!
//! Every status except `UNKNOWN` has a documented lowercase wire token
//! (`EMPTY` is written as the empty string). `UNKNOWN` is the normalization
//! fallback for any token the system does not recognize: it is only ever
//! produced, never accepted as input.

use vstd::prelude::*;
use vstd::string::StringExecFns;

use crate::text::str_eq;

verus! {

/// Runtime-reported lifecycle status of a container.
#[allow(non_camel_case_types)]
#[derive(Debug, Clone, Copy, PartialEq, Eq, Structural)]
pub enum ContainerStateStatusEnum {
    EMPTY,
    CREATED,
    RUNNING,
    PAUSED,
    RESTARTING,
    REMOVING,
    EXITED,
    DEAD,
    UNKNOWN,
}

impl ContainerStateStatusEnum {
    /// The token this status is written as on the wire.
    pub open spec fn wire_token(self) -> Seq<char> {
        match self {
            ContainerStateStatusEnum::EMPTY => ""@,
            ContainerStateStatusEnum::CREATED => "created"@,
            ContainerStateStatusEnum::RUNNING => "running"@,
            ContainerStateStatusEnum::PAUSED => "paused"@,
            ContainerStateStatusEnum::RESTARTING => "restarting"@,
            ContainerStateStatusEnum::REMOVING => "removing"@,
            ContainerStateStatusEnum::EXITED => "exited"@,
            ContainerStateStatusEnum::DEAD => "dead"@,
            ContainerStateStatusEnum::UNKNOWN => "unknown"@,
        }
    }

    /// Renders the status as its wire token.
    pub fn as_str(&self) -> (r: &'static str)
        ensures
            r@ == self.wire_token(),
    {
        match self {
            ContainerStateStatusEnum::EMPTY => "",
            ContainerStateStatusEnum::CREATED => "created",
            ContainerStateStatusEnum::RUNNING => "running",
            ContainerStateStatusEnum::PAUSED => "paused",
            ContainerStateStatusEnum::RESTARTING => "restarting",
            ContainerStateStatusEnum::REMOVING => "removing",
            ContainerStateStatusEnum::EXITED => "exited",
            ContainerStateStatusEnum::DEAD => "dead",
            ContainerStateStatusEnum::UNKNOWN => "unknown",
        }
    }

    /// Renders the status as an owned wire token.
    pub fn to_wire_string(&self) -> (r: String)
        ensures
            r@ == self.wire_token(),
    {
        String::from_str(self.as_str())
    }

    /// Parses a wire token strictly: unrecognized tokens are an error.
    pub fn from_wire(token: &str) -> (r: Result<ContainerStateStatusEnum, String>)
        ensures
            (match status_of_token(token@) {
                Some(s) => r == Ok::<ContainerStateStatusEnum, String>(s),
                None => r matches Err(e) && e@ == "Invalid enum type: "@ + token@,
            }),
    {
        if str_eq(token, "") {
            Ok(ContainerStateStatusEnum::EMPTY)
        } else if str_eq(token, "created") {
            Ok(ContainerStateStatusEnum::CREATED)
        } else if str_eq(token, "running") {
            Ok(ContainerStateStatusEnum::RUNNING)
        } else if str_eq(token, "paused") {
            Ok(ContainerStateStatusEnum::PAUSED)
        } else if str_eq(token, "restarting") {
            Ok(ContainerStateStatusEnum::RESTARTING)
        } else if str_eq(token, "removing") {
            Ok(ContainerStateStatusEnum::REMOVING)
        } else if str_eq(token, "exited") {
            Ok(ContainerStateStatusEnum::EXITED)
        } else if str_eq(token, "dead") {
            Ok(ContainerStateStatusEnum::DEAD)
        } else {
            let mut msg = String::from_str("Invalid enum type: ");
            msg.append(token);
            Err(msg)
        }
    }

    /// Normalizes a runtime-reported token: anything outside the documented
    /// vocabulary degrades to `UNKNOWN`, never to an error.
    pub fn normalize(token: &str) -> (r: ContainerStateStatusEnum)
        ensures
            r == normalize_token(token@),
    {
        match Self::from_wire(token) {
            Ok(s) => s,
            Err(_) => ContainerStateStatusEnum::UNKNOWN,
        }
    }
}

/// The status a strict parse of a wire token yields, if any.
pub open spec fn status_of_token(t: Seq<char>) -> Option<ContainerStateStatusEnum> {
    if t == ""@ {
        Some(ContainerStateStatusEnum::EMPTY)
    } else if t == "created"@ {
        Some(ContainerStateStatusEnum::CREATED)
    } else if t == "running"@ {
        Some(ContainerStateStatusEnum::RUNNING)
    } else if t == "paused"@ {
        Some(ContainerStateStatusEnum::PAUSED)
    } else if t == "restarting"@ {
        Some(ContainerStateStatusEnum::RESTARTING)
    } else if t == "removing"@ {
        Some(ContainerStateStatusEnum::REMOVING)
    } else if t == "exited"@ {
        Some(ContainerStateStatusEnum::EXITED)
    } else if t == "dead"@ {
        Some(ContainerStateStatusEnum::DEAD)
    } else {
        None
    }
}

/// Total normalization of a wire token: the parsed status, or `UNKNOWN`.
pub open spec fn normalize_token(t: Seq<char>) -> ContainerStateStatusEnum {
    match status_of_token(t) {
        Some(s) => s,
        None => ContainerStateStatusEnum::UNKNOWN,
    }
}

/// Round trip: every status except `UNKNOWN` parses back from its own wire
/// token to the identical value, strictly and under normalization.
pub proof fn lemma_status_round_trip(s: ContainerStateStatusEnum)
    requires
        s != ContainerStateStatusEnum::UNKNOWN,
    ensures
        status_of_token(s.wire_token()) == Some(s),
        normalize_token(s.wire_token()) == s,
{
    reveal_strlit("");
    reveal_strlit("created");
    reveal_strlit("running");
    reveal_strlit("paused");
    reveal_strlit("restarting");
    reveal_strlit("removing");
    reveal_strlit("exited");
    reveal_strlit("dead");
    assert(""@.len() == 0);
    assert("created"@.len() == 7);
    assert("running"@.len() == 7);
    assert("paused"@.len() == 6);
    assert("restarting"@.len() == 10);
    assert("removing"@.len() == 8);
    assert("exited"@.len() == 6);
    assert("dead"@.len() == 4);
    assert("created"@[0] == 'c');
    assert("running"@[0] == 'r');
    assert("paused"@[0] == 'p');
    assert("exited"@[0] == 'e');
}

/// Away from the `UNKNOWN` fallback, the wire token identifies the status:
/// two statuses with the same token are the same.
pub proof fn lemma_wire_token_injective(s1: ContainerStateStatusEnum, s2: ContainerStateStatusEnum)
    requires
        s1 != ContainerStateStatusEnum::UNKNOWN,
        s2 != ContainerStateStatusEnum::UNKNOWN,
        s1.wire_token() == s2.wire_token(),
    ensures
        s1 == s2,
{
    lemma_status_round_trip(s1);
    lemma_status_round_trip(s2);
}

/// Strict parsing never yields `UNKNOWN`: the fallback has no wire token
/// of its own.
pub proof fn lemma_unknown_never_parsed(t: Seq<char>)
    ensures
        status_of_token(t) != Some(ContainerStateStatusEnum::UNKNOWN),
{
}

} // verus!
