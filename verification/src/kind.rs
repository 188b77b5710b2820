//! The kind of a backend and the status of its process, with their textual
//! names as they are stored and shown.

use vstd::prelude::*;
use crate::text::str_eq;

verus! {

broadcast use vstd::string::group_string_axioms;

/// The API family that a backend speaks.
#[derive(Clone, Copy, Debug, PartialEq, Eq, Structural)]
pub enum BackendKind {
    Custom,
    OpenAICompatible,
    Anthropic,
}

/// The lifecycle status of a backend process.
#[derive(Clone, Copy, Debug, PartialEq, Eq, Structural)]
pub enum BackendStatus {
    Stopped,
    Starting,
    Running,
    Stopping,
    Error,
}

/// The stored name of a kind.
pub open spec fn kind_name(k: BackendKind) -> Seq<char> {
    match k {
        BackendKind::Custom => "custom"@,
        BackendKind::OpenAICompatible => "openai_compatible"@,
        BackendKind::Anthropic => "anthropic"@,
    }
}

/// The kind that a stored name denotes, if any.
pub open spec fn parse_kind(s: Seq<char>) -> Option<BackendKind> {
    if s == "custom"@ {
        Some(BackendKind::Custom)
    } else if s == "openai_compatible"@ {
        Some(BackendKind::OpenAICompatible)
    } else if s == "anthropic"@ {
        Some(BackendKind::Anthropic)
    } else {
        None
    }
}

/// The message with which an unknown kind name is refused.
pub open spec fn unknown_kind_message(s: Seq<char>) -> Seq<char> {
    "Unknown backend kind: "@ + s
}

/// The stored name of a status.
pub open spec fn status_name(st: BackendStatus) -> Seq<char> {
    match st {
        BackendStatus::Stopped => "stopped"@,
        BackendStatus::Starting => "starting"@,
        BackendStatus::Running => "running"@,
        BackendStatus::Stopping => "stopping"@,
        BackendStatus::Error => "error"@,
    }
}

/// The status that a stored name denotes; an unknown name reads as stopped.
pub open spec fn parse_status(s: Seq<char>) -> BackendStatus {
    if s == "stopped"@ {
        BackendStatus::Stopped
    } else if s == "starting"@ {
        BackendStatus::Starting
    } else if s == "running"@ {
        BackendStatus::Running
    } else if s == "stopping"@ {
        BackendStatus::Stopping
    } else if s == "error"@ {
        BackendStatus::Error
    } else {
        BackendStatus::Stopped
    }
}

impl BackendKind {
    /// Reads a kind from its stored name; any other name is refused.
    pub fn from_str(s: &str) -> (r: Result<BackendKind, String>)
        ensures
            match r {
                Ok(k) => parse_kind(s@) == Some(k),
                Err(e) => parse_kind(s@) is None && e@ == unknown_kind_message(s@),
            },
    {
        if str_eq(s, "custom") {
            Ok(BackendKind::Custom)
        } else if str_eq(s, "openai_compatible") {
            Ok(BackendKind::OpenAICompatible)
        } else if str_eq(s, "anthropic") {
            Ok(BackendKind::Anthropic)
        } else {
            let mut e = String::from_str("Unknown backend kind: ");
            e.append(s);
            Err(e)
        }
    }

    /// The stored name of this kind.
    pub fn as_str(&self) -> (r: &'static str)
        ensures
            r@ == kind_name(*self),
    {
        match self {
            BackendKind::Custom => "custom",
            BackendKind::OpenAICompatible => "openai_compatible",
            BackendKind::Anthropic => "anthropic",
        }
    }
}

impl BackendStatus {
    /// The stored name of this status.
    pub fn as_str(&self) -> (r: &'static str)
        ensures
            r@ == status_name(*self),
    {
        match self {
            BackendStatus::Stopped => "stopped",
            BackendStatus::Starting => "starting",
            BackendStatus::Running => "running",
            BackendStatus::Stopping => "stopping",
            BackendStatus::Error => "error",
        }
    }

    /// Reads a status from its stored name; an unknown name reads as stopped.
    pub fn from_str(s: &str) -> (r: BackendStatus)
        ensures
            r == parse_status(s@),
    {
        if str_eq(s, "stopped") {
            BackendStatus::Stopped
        } else if str_eq(s, "starting") {
            BackendStatus::Starting
        } else if str_eq(s, "running") {
            BackendStatus::Running
        } else if str_eq(s, "stopping") {
            BackendStatus::Stopping
        } else if str_eq(s, "error") {
            BackendStatus::Error
        } else {
            BackendStatus::Stopped
        }
    }
}

/// Reading back the stored name of a kind gives that kind.
pub proof fn lemma_kind_name_roundtrip(k: BackendKind)
    ensures
        parse_kind(kind_name(k)) == Some(k),
{
    reveal_strlit("custom");
    reveal_strlit("openai_compatible");
    reveal_strlit("anthropic");
    assert("custom"@.len() == 6);
    assert("openai_compatible"@.len() == 17);
    assert("anthropic"@.len() == 9);
}

/// Distinct kinds have distinct stored names.
pub proof fn lemma_kind_name_injective(a: BackendKind, b: BackendKind)
    ensures
        kind_name(a) == kind_name(b) ==> a == b,
{
    lemma_kind_name_roundtrip(a);
    lemma_kind_name_roundtrip(b);
}

/// A name is accepted as a kind exactly when it is the stored name of one.
pub proof fn lemma_parse_kind_only_names(s: Seq<char>)
    ensures
        parse_kind(s) matches Some(k) ==> kind_name(k) == s,
{
}

/// Reading back the stored name of a status gives that status.
pub proof fn lemma_status_name_roundtrip(st: BackendStatus)
    ensures
        parse_status(status_name(st)) == st,
{
    reveal_strlit("stopped");
    reveal_strlit("starting");
    reveal_strlit("running");
    reveal_strlit("stopping");
    reveal_strlit("error");
    assert("stopped"@.len() == 7);
    assert("starting"@.len() == 8);
    assert("running"@.len() == 7);
    assert("stopping"@.len() == 8);
    assert("error"@.len() == 5);
    assert("stopped"@[2] != "running"@[2]);
    assert("starting"@[2] != "stopping"@[2]);
}

/// Distinct statuses have distinct stored names.
pub proof fn lemma_status_name_injective(a: BackendStatus, b: BackendStatus)
    ensures
        status_name(a) == status_name(b) ==> a == b,
{
    lemma_status_name_roundtrip(a);
    lemma_status_name_roundtrip(b);
}

} // verus!
