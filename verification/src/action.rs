//! The internal animation actions and their textual identifiers.
use vstd::prelude::*;

verus! {

/// What the character is currently doing.
#[derive(Debug, Clone, Copy, PartialEq, Eq, Hash, Structural)]
pub enum Action {
    Idle,
    Read,
    Write,
    Exec,
    WebSearch,
    WebFetch,
    Browser,
    Reply,
    Error,
}

/// The identifier of an action, as used in configuration files and in the
/// events sent to the user interface.
pub open spec fn action_id(a: Action) -> Seq<char> {
    match a {
        Action::Idle => "idle"@,
        Action::Read => "read"@,
        Action::Write => "write"@,
        Action::Exec => "exec"@,
        Action::WebSearch => "web_search"@,
        Action::WebFetch => "web_fetch"@,
        Action::Browser => "browser"@,
        Action::Reply => "reply"@,
        Action::Error => "error"@,
    }
}

/// The action named by an identifier, if the identifier names one.
pub open spec fn action_for_id(id: Seq<char>) -> Option<Action> {
    if id == "idle"@ {
        Some(Action::Idle)
    } else if id == "read"@ {
        Some(Action::Read)
    } else if id == "write"@ {
        Some(Action::Write)
    } else if id == "exec"@ {
        Some(Action::Exec)
    } else if id == "web_search"@ {
        Some(Action::WebSearch)
    } else if id == "web_fetch"@ {
        Some(Action::WebFetch)
    } else if id == "browser"@ {
        Some(Action::Browser)
    } else if id == "reply"@ {
        Some(Action::Reply)
    } else if id == "error"@ {
        Some(Action::Error)
    } else {
        None
    }
}

/// Display priority of an action: when several tools run at once, the
/// action with the highest priority is shown.
pub open spec fn priority_of(a: Action) -> u8 {
    match a {
        Action::Error => 100,
        Action::Exec => 80,
        Action::Write => 70,
        Action::Browser => 60,
        Action::WebSearch | Action::WebFetch => 50,
        Action::Read => 40,
        Action::Reply => 20,
        Action::Idle => 0,
    }
}

/// The identifier of an action.
pub fn action_to_str(a: Action) -> (s: &'static str)
    ensures
        s@ == action_id(a),
{
    match a {
        Action::Idle => "idle",
        Action::Read => "read",
        Action::Write => "write",
        Action::Exec => "exec",
        Action::WebSearch => "web_search",
        Action::WebFetch => "web_fetch",
        Action::Browser => "browser",
        Action::Reply => "reply",
        Action::Error => "error",
    }
}

/// Every action's identifier names that action again.
pub proof fn lemma_action_id_roundtrip(a: Action)
    ensures
        action_for_id(action_id(a)) == Some(a),
{
    reveal_strlit("idle");
    reveal_strlit("read");
    reveal_strlit("write");
    reveal_strlit("exec");
    reveal_strlit("web_search");
    reveal_strlit("web_fetch");
    reveal_strlit("browser");
    reveal_strlit("reply");
    reveal_strlit("error");
    assert("idle"@[0] == 'i' && "read"@[0] == 'r' && "write"@[0] == 'w' && "exec"@[0] == 'e');
    assert("web_search"@[0] == 'w' && "web_fetch"@[0] == 'w' && "browser"@[0] == 'b');
    assert("reply"@[0] == 'r' && "error"@[0] == 'e');
    assert("read"@[2] == 'a' && "reply"@[2] == 'p' && "exec"@[1] == 'x' && "error"@[1] == 'r');
    assert("write"@[1] == 'r' && "web_search"@[1] == 'e' && "web_fetch"@[1] == 'e');
    assert("web_search"@[4] == 's' && "web_fetch"@[4] == 'f');
    assert(action_for_id(action_id(Action::Idle)) == Some(Action::Idle));
    assert(action_for_id(action_id(Action::Read)) == Some(Action::Read));
    assert(action_for_id(action_id(Action::Write)) == Some(Action::Write));
    assert(action_for_id(action_id(Action::Exec)) == Some(Action::Exec));
    assert(action_for_id(action_id(Action::WebSearch)) == Some(Action::WebSearch));
    assert(action_for_id(action_id(Action::WebFetch)) == Some(Action::WebFetch));
    assert(action_for_id(action_id(Action::Browser)) == Some(Action::Browser));
    assert(action_for_id(action_id(Action::Reply)) == Some(Action::Reply));
    assert(action_for_id(action_id(Action::Error)) == Some(Action::Error));
}

/// Different actions have different identifiers.
pub proof fn lemma_action_ids_distinct(a: Action, b: Action)
    ensures
        a != b ==> action_id(a) != action_id(b),
{
    lemma_action_id_roundtrip(a);
    lemma_action_id_roundtrip(b);
}

} // verus!
