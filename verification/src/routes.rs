//! Endpoints that are open to everybody.

use crate::text::{same_text, starts_with};
use vstd::prelude::*;

verus! {

/// Endpoints that never ask for credentials: what a browser fetches by itself,
/// the health checks, and what it takes to log in.
pub open spec fn always_public(path: Seq<char>) -> bool {
    ||| path == "/logo.png"@
    ||| path == "/favicon.ico"@
    ||| path == "/.well-known/agent.json"@
    ||| path == "/api/health"@
    ||| path == "/api/version"@
    ||| path == "/api/auth/login"@
    ||| path == "/api/auth/status"@
    ||| path == "/api/auth/mode"@
}

/// Whether an endpoint never asks for credentials.
pub fn is_always_public(path: &str) -> (public: bool)
    ensures
        public == always_public(path@),
{
    same_text(path, "/logo.png") || same_text(path, "/favicon.ico") || same_text(
        path,
        "/.well-known/agent.json",
    ) || same_text(path, "/api/health") || same_text(path, "/api/version") || same_text(
        path,
        "/api/auth/login",
    ) || same_text(path, "/api/auth/status") || same_text(path, "/api/auth/mode")
}

/// Endpoints of the dashboard that are open by their whole path.
pub open spec fn dashboard_page(path: Seq<char>) -> bool {
    ||| path == "/"@
    ||| path == "/api/health/detail"@
    ||| path == "/api/status"@
    ||| path == "/api/agents"@
    ||| path == "/api/profiles"@
    ||| path == "/api/config"@
    ||| path == "/api/models"@
    ||| path == "/api/models/aliases"@
    ||| path == "/api/providers"@
    ||| path == "/api/budget"@
    ||| path == "/api/budget/agents"@
    ||| path == "/api/network/status"@
    ||| path == "/api/a2a/agents"@
    ||| path == "/api/approvals"@
    ||| path == "/api/channels"@
    ||| path == "/api/hands"@
    ||| path == "/api/hands/active"@
    ||| path == "/api/skills"@
    ||| path == "/api/sessions"@
    ||| path == "/api/integrations"@
    ||| path == "/api/integrations/available"@
    ||| path == "/api/integrations/health"@
    ||| path == "/api/workflows"@
    ||| path == "/api/logs/stream"@
}

/// Endpoints of the dashboard that are open with all that lies below them.
pub open spec fn dashboard_subtree(path: Seq<char>) -> bool {
    ||| "/api/uploads/"@.is_prefix_of(path)
    ||| "/api/budget/agents/"@.is_prefix_of(path)
    ||| "/api/approvals/"@.is_prefix_of(path)
    ||| "/api/hands/"@.is_prefix_of(path)
    ||| "/api/cron/"@.is_prefix_of(path)
    ||| "/api/providers/github-copilot/oauth/"@.is_prefix_of(path)
}

/// Endpoints that are open where the dashboard is not protected.
pub open spec fn dashboard_public(path: Seq<char>) -> bool {
    dashboard_page(path) || dashboard_subtree(path)
}

/// Whether an endpoint is open where the dashboard is not protected.
pub fn is_dashboard_public(path: &str) -> (public: bool)
    ensures
        public == dashboard_public(path@),
{
    same_text(path, "/") || same_text(path, "/api/health/detail") || same_text(path, "/api/status")
        || same_text(path, "/api/agents") || same_text(path, "/api/profiles") || same_text(
        path,
        "/api/config",
    ) || starts_with(path, "/api/uploads/") || same_text(path, "/api/models") || same_text(
        path,
        "/api/models/aliases",
    ) || same_text(path, "/api/providers") || same_text(path, "/api/budget") || same_text(
        path,
        "/api/budget/agents",
    ) || starts_with(path, "/api/budget/agents/") || same_text(path, "/api/network/status")
        || same_text(path, "/api/a2a/agents") || same_text(path, "/api/approvals") || starts_with(
        path,
        "/api/approvals/",
    ) || same_text(path, "/api/channels") || same_text(path, "/api/hands") || same_text(
        path,
        "/api/hands/active",
    ) || starts_with(path, "/api/hands/") || same_text(path, "/api/skills") || same_text(
        path,
        "/api/sessions",
    ) || same_text(path, "/api/integrations") || same_text(path, "/api/integrations/available")
        || same_text(path, "/api/integrations/health") || same_text(path, "/api/workflows")
        || same_text(path, "/api/logs/stream") || starts_with(path, "/api/cron/") || starts_with(
        path,
        "/api/providers/github-copilot/oauth/",
    )
}

/// Endpoints of the A2A protocol, which has its own authentication.
pub open spec fn a2a_endpoint(path: Seq<char>) -> bool {
    "/a2a/"@.is_prefix_of(path)
}

/// Whether an endpoint belongs to the A2A protocol.
pub fn is_a2a_endpoint(path: &str) -> (a2a: bool)
    ensures
        a2a == a2a_endpoint(path@),
{
    starts_with(path, "/a2a/")
}

/// The paths that never ask for credentials, one by one.
pub proof fn law_always_public_paths(path: Seq<char>)
    ensures
        always_public(path) <==> seq![
            "/logo.png"@,
            "/favicon.ico"@,
            "/.well-known/agent.json"@,
            "/api/health"@,
            "/api/version"@,
            "/api/auth/login"@,
            "/api/auth/status"@,
            "/api/auth/mode"@,
        ].contains(path),
{
    let listed = seq![
        "/logo.png"@,
        "/favicon.ico"@,
        "/.well-known/agent.json"@,
        "/api/health"@,
        "/api/version"@,
        "/api/auth/login"@,
        "/api/auth/status"@,
        "/api/auth/mode"@,
    ];
    assert(listed[0] == "/logo.png"@);
    assert(listed[1] == "/favicon.ico"@);
    assert(listed[2] == "/.well-known/agent.json"@);
    assert(listed[3] == "/api/health"@);
    assert(listed[4] == "/api/version"@);
    assert(listed[5] == "/api/auth/login"@);
    assert(listed[6] == "/api/auth/status"@);
    assert(listed[7] == "/api/auth/mode"@);
    if listed.contains(path) {
        let i = listed.index_of(path);
        assert(i == 0 || i == 1 || i == 2 || i == 3 || i == 4 || i == 5 || i == 6 || i == 7);
    }
}

/// The paths of the dashboard, one by one, and the texts that other paths of
/// the dashboard start with.
pub proof fn law_dashboard_paths(path: Seq<char>)
    ensures
        dashboard_public(path) <==> seq![
            "/"@,
            "/api/health/detail"@,
            "/api/status"@,
            "/api/agents"@,
            "/api/profiles"@,
            "/api/config"@,
            "/api/models"@,
            "/api/models/aliases"@,
            "/api/providers"@,
            "/api/budget"@,
            "/api/budget/agents"@,
            "/api/network/status"@,
            "/api/a2a/agents"@,
            "/api/approvals"@,
            "/api/channels"@,
            "/api/hands"@,
            "/api/hands/active"@,
            "/api/skills"@,
            "/api/sessions"@,
            "/api/integrations"@,
            "/api/integrations/available"@,
            "/api/integrations/health"@,
            "/api/workflows"@,
            "/api/logs/stream"@,
        ].contains(path) || exists|start: Seq<char>, rest: Seq<char>|
            seq![
                "/api/uploads/"@,
                "/api/budget/agents/"@,
                "/api/approvals/"@,
                "/api/hands/"@,
                "/api/cron/"@,
                "/api/providers/github-copilot/oauth/"@,
            ].contains(start) && path == #[trigger] (start + rest),
{
    let listed = seq![
        "/"@,
        "/api/health/detail"@,
        "/api/status"@,
        "/api/agents"@,
        "/api/profiles"@,
        "/api/config"@,
        "/api/models"@,
        "/api/models/aliases"@,
        "/api/providers"@,
        "/api/budget"@,
        "/api/budget/agents"@,
        "/api/network/status"@,
        "/api/a2a/agents"@,
        "/api/approvals"@,
        "/api/channels"@,
        "/api/hands"@,
        "/api/hands/active"@,
        "/api/skills"@,
        "/api/sessions"@,
        "/api/integrations"@,
        "/api/integrations/available"@,
        "/api/integrations/health"@,
        "/api/workflows"@,
        "/api/logs/stream"@,
    ];
    assert(listed[0] == "/"@);
    assert(listed[1] == "/api/health/detail"@);
    assert(listed[2] == "/api/status"@);
    assert(listed[3] == "/api/agents"@);
    assert(listed[4] == "/api/profiles"@);
    assert(listed[5] == "/api/config"@);
    assert(listed[6] == "/api/models"@);
    assert(listed[7] == "/api/models/aliases"@);
    assert(listed[8] == "/api/providers"@);
    assert(listed[9] == "/api/budget"@);
    assert(listed[10] == "/api/budget/agents"@);
    assert(listed[11] == "/api/network/status"@);
    assert(listed[12] == "/api/a2a/agents"@);
    assert(listed[13] == "/api/approvals"@);
    assert(listed[14] == "/api/channels"@);
    assert(listed[15] == "/api/hands"@);
    assert(listed[16] == "/api/hands/active"@);
    assert(listed[17] == "/api/skills"@);
    assert(listed[18] == "/api/sessions"@);
    assert(listed[19] == "/api/integrations"@);
    assert(listed[20] == "/api/integrations/available"@);
    assert(listed[21] == "/api/integrations/health"@);
    assert(listed[22] == "/api/workflows"@);
    assert(listed[23] == "/api/logs/stream"@);
    if listed.contains(path) {
        let i = listed.index_of(path);
        assert(i == 0 || i == 1 || i == 2 || i == 3 || i == 4 || i == 5 || i == 6 || i == 7
            || i == 8 || i == 9 || i == 10 || i == 11 || i == 12 || i == 13 || i == 14
            || i == 15 || i == 16 || i == 17 || i == 18 || i == 19 || i == 20 || i == 21
            || i == 22 || i == 23);
    }
    let starts = seq![
        "/api/uploads/"@,
        "/api/budget/agents/"@,
        "/api/approvals/"@,
        "/api/hands/"@,
        "/api/cron/"@,
        "/api/providers/github-copilot/oauth/"@,
    ];
    assert(starts[0] == "/api/uploads/"@);
    assert(starts[1] == "/api/budget/agents/"@);
    assert(starts[2] == "/api/approvals/"@);
    assert(starts[3] == "/api/hands/"@);
    assert(starts[4] == "/api/cron/"@);
    assert(starts[5] == "/api/providers/github-copilot/oauth/"@);
    assert forall|i: int| 0 <= i < starts.len() && (#[trigger] starts[i]).is_prefix_of(
        path,
    ) implies exists|start: Seq<char>, rest: Seq<char>|
        starts.contains(start) && path == #[trigger] (start + rest) by {
        let rest = path.skip(starts[i].len() as int);
        assert(path =~= starts[i] + rest);
        assert(starts.contains(starts[i]));
    }
    assert forall|start: Seq<char>, rest: Seq<char>|
        starts.contains(start) && path == #[trigger] (start + rest) implies dashboard_subtree(
        path,
    ) by {
        let i = starts.index_of(start);
        assert(i == 0 || i == 1 || i == 2 || i == 3 || i == 4 || i == 5);
        assert(start.is_prefix_of(path));
    }
}

/// The paths of the A2A protocol are those that start with `/a2a/`.
pub proof fn law_a2a_paths(path: Seq<char>, rest: Seq<char>)
    ensures
        a2a_endpoint("/a2a/"@ + rest),
        a2a_endpoint(path) ==> path == "/a2a/"@ + path.skip("/a2a/"@.len() as int),
{
    assert("/a2a/"@.is_prefix_of("/a2a/"@ + rest));
    if a2a_endpoint(path) {
        assert(path =~= "/a2a/"@ + path.skip("/a2a/"@.len() as int));
    }
}

} // verus!
