//! Request dispatch: which endpoint serves a given method and path.

use vstd::prelude::*;
use vstd::string::*;

use crate::query::{
    spec_device_state_id, DeviceStatePath, DEVICE_STATE_PREFIX,
};
use crate::text::{ends_with, starts_with, str_ends_with, str_eq, str_starts_with};

verus! {

/// The endpoints of the HTTP API, without their path parameters.
#[derive(Debug, Clone, Copy, PartialEq, Eq, Structural)]
pub enum RouteKind {
    Index,
    Health,
    Sensors,
    Readings,
    SwitchesList,
    DeviceState,
    ExecuteCommand,
    PermitJoin,
    UpdateDevice,
    AutomationRules,
    AutomationRule,
    CreateAutomationRule,
    UpdateAutomationRule,
    DeleteAutomationRule,
    ExecutionLogs,
    LogsList,
    LogView,
    LogSince,
    ProcessHistory,
    WebSocket,
    StaticAsset,
    NotFound,
}

/// An endpoint together with the path parameter it extracts.
pub enum Route<'a> {
    Index,
    Health,
    Sensors,
    Readings,
    SwitchesList,
    /// `GET /api/devices/{id}/state`
    DeviceState(&'a str),
    ExecuteCommand,
    PermitJoin,
    /// `PATCH /api/devices/...` (the handler reads the id from the path)
    UpdateDevice,
    AutomationRules,
    /// `GET /api/automation/rules/{id}`
    AutomationRule(&'a str),
    CreateAutomationRule,
    /// `PUT /api/automation/rules/{id}`
    UpdateAutomationRule(&'a str),
    /// `DELETE /api/automation/rules/{id}`
    DeleteAutomationRule(&'a str),
    ExecutionLogs,
    LogsList,
    LogView,
    LogSince,
    ProcessHistory,
    WebSocket,
    StaticAsset,
    NotFound,
}

/// Prefix of the automation-rule endpoints that carry a rule id.
pub const RULES_PREFIX: &'static str = "/api/automation/rules/";

/// Kind and path parameter of a route (the parameter is empty when the route
/// has none).
pub open spec fn route_view(r: Route) -> (RouteKind, Seq<char>) {
    match r {
        Route::Index => (RouteKind::Index, Seq::empty()),
        Route::Health => (RouteKind::Health, Seq::empty()),
        Route::Sensors => (RouteKind::Sensors, Seq::empty()),
        Route::Readings => (RouteKind::Readings, Seq::empty()),
        Route::SwitchesList => (RouteKind::SwitchesList, Seq::empty()),
        Route::DeviceState(id) => (RouteKind::DeviceState, id@),
        Route::ExecuteCommand => (RouteKind::ExecuteCommand, Seq::empty()),
        Route::PermitJoin => (RouteKind::PermitJoin, Seq::empty()),
        Route::UpdateDevice => (RouteKind::UpdateDevice, Seq::empty()),
        Route::AutomationRules => (RouteKind::AutomationRules, Seq::empty()),
        Route::AutomationRule(id) => (RouteKind::AutomationRule, id@),
        Route::CreateAutomationRule => (RouteKind::CreateAutomationRule, Seq::empty()),
        Route::UpdateAutomationRule(id) => (RouteKind::UpdateAutomationRule, id@),
        Route::DeleteAutomationRule(id) => (RouteKind::DeleteAutomationRule, id@),
        Route::ExecutionLogs => (RouteKind::ExecutionLogs, Seq::empty()),
        Route::LogsList => (RouteKind::LogsList, Seq::empty()),
        Route::LogView => (RouteKind::LogView, Seq::empty()),
        Route::LogSince => (RouteKind::LogSince, Seq::empty()),
        Route::ProcessHistory => (RouteKind::ProcessHistory, Seq::empty()),
        Route::WebSocket => (RouteKind::WebSocket, Seq::empty()),
        Route::StaticAsset => (RouteKind::StaticAsset, Seq::empty()),
        Route::NotFound => (RouteKind::NotFound, Seq::empty()),
    }
}

/// The rule id after `/api/automation/rules/`.
pub open spec fn rule_id_of(p: Seq<char>) -> Seq<char> {
    p.subrange(RULES_PREFIX@.len() as int, p.len() as int)
}

/// The dispatch table, tried top to bottom; the first matching arm wins.
pub open spec fn spec_route(m: Seq<char>, p: Seq<char>) -> (RouteKind, Seq<char>) {
    let get = m == "GET"@;
    let post = m == "POST"@;
    if get && p == "/"@ {
        (RouteKind::Index, Seq::empty())
    } else if get && p == "/health"@ {
        (RouteKind::Health, Seq::empty())
    } else if get && p == "/api/sensors"@ {
        (RouteKind::Sensors, Seq::empty())
    } else if get && p == "/api/readings"@ {
        (RouteKind::Readings, Seq::empty())
    } else if get && p == "/api/devices/switches"@ {
        (RouteKind::SwitchesList, Seq::empty())
    } else if get && spec_device_state_id(p) is Some {
        (RouteKind::DeviceState, spec_device_state_id(p)->0)
    } else if post && p == "/api/commands/execute"@ {
        (RouteKind::ExecuteCommand, Seq::empty())
    } else if post && p == "/api/zigbee/permit_join"@ {
        (RouteKind::PermitJoin, Seq::empty())
    } else if m == "PATCH"@ && starts_with(p, DEVICE_STATE_PREFIX@) {
        (RouteKind::UpdateDevice, Seq::empty())
    } else if get && p == "/api/automation/rules"@ {
        (RouteKind::AutomationRules, Seq::empty())
    } else if get && starts_with(p, RULES_PREFIX@) {
        (RouteKind::AutomationRule, rule_id_of(p))
    } else if post && p == "/api/automation/rules"@ {
        (RouteKind::CreateAutomationRule, Seq::empty())
    } else if m == "PUT"@ && starts_with(p, RULES_PREFIX@) {
        (RouteKind::UpdateAutomationRule, rule_id_of(p))
    } else if m == "DELETE"@ && starts_with(p, RULES_PREFIX@) {
        (RouteKind::DeleteAutomationRule, rule_id_of(p))
    } else if get && p == "/api/automation/logs"@ {
        (RouteKind::ExecutionLogs, Seq::empty())
    } else if get && p == "/api/logs/list"@ {
        (RouteKind::LogsList, Seq::empty())
    } else if get && p == "/api/logs/view"@ {
        (RouteKind::LogView, Seq::empty())
    } else if get && p == "/api/logs/since"@ {
        (RouteKind::LogSince, Seq::empty())
    } else if get && p == "/api/logs/process"@ {
        (RouteKind::ProcessHistory, Seq::empty())
    } else if get && p == "/ws"@ {
        (RouteKind::WebSocket, Seq::empty())
    } else if starts_with(p, "/assets/"@) || ends_with(p, ".svg"@) {
        (RouteKind::StaticAsset, Seq::empty())
    } else {
        (RouteKind::NotFound, Seq::empty())
    }
}

/// Lengths and a few characters of the route table's methods and paths.
proof fn lemma_route_literals()
    ensures
        "GET"@.len() == 3,
        "POST"@.len() == 4,
        "PATCH"@.len() == 5,
        "PUT"@.len() == 3,
        "DELETE"@.len() == 6,
        "GET"@[0] == 'G',
        "PUT"@[0] == 'P',
        "/"@.len() == 1,
        "/health"@.len() == 7,
        "/api/sensors"@.len() == 12,
        "/api/sensors"@[5] == 's',
        "/api/readings"@.len() == 13,
        "/api/readings"@[5] == 'r',
        "/api/devices/switches"@.len() == 21,
        "/api/devices/switches"@[5] == 'd',
        "/api/commands/execute"@.len() == 21,
        "/api/commands/execute"@[5] == 'c',
        "/api/zigbee/permit_join"@.len() == 23,
        "/api/zigbee/permit_join"@[5] == 'z',
        "/api/automation/rules"@.len() == 21,
        "/api/automation/rules"@[5] == 'a',
        "/api/automation/logs"@.len() == 20,
        "/api/automation/logs"@[5] == 'a',
        "/api/logs/list"@.len() == 14,
        "/api/logs/list"@[5] == 'l',
        "/api/logs/view"@.len() == 14,
        "/api/logs/view"@[5] == 'l',
        "/api/logs/since"@.len() == 15,
        "/api/logs/since"@[5] == 'l',
        "/api/logs/process"@.len() == 17,
        "/api/logs/process"@[5] == 'l',
        "/ws"@.len() == 3,
        "/api/logs/list"@[10] == 'l',
        "/api/logs/view"@[10] == 'v',
        DEVICE_STATE_PREFIX@.len() == 13,
        DEVICE_STATE_PREFIX@[5] == 'd',
        RULES_PREFIX@.len() == 22,
{
    reveal_strlit("GET");
    reveal_strlit("POST");
    reveal_strlit("PATCH");
    reveal_strlit("PUT");
    reveal_strlit("DELETE");
    reveal_strlit("/");
    reveal_strlit("/health");
    reveal_strlit("/api/sensors");
    reveal_strlit("/api/readings");
    reveal_strlit("/api/devices/switches");
    reveal_strlit("/api/commands/execute");
    reveal_strlit("/api/zigbee/permit_join");
    reveal_strlit("/api/automation/rules");
    reveal_strlit("/api/automation/logs");
    reveal_strlit("/api/logs/list");
    reveal_strlit("/api/logs/view");
    reveal_strlit("/api/logs/since");
    reveal_strlit("/api/logs/process");
    reveal_strlit("/ws");
    reveal_strlit("/api/devices/");
    reveal_strlit("/api/automation/rules/");
}

/// The index, health check and sensor list are each reached exactly by a `GET` of their own path.
pub proof fn law_fixed_paths_basic(m: Seq<char>, p: Seq<char>)
    ensures
        (spec_route(m, p).0 == RouteKind::Index) <==> (m == "GET"@ && p == "/"@),
        (spec_route(m, p).0 == RouteKind::Health) <==> (m == "GET"@ && p == "/health"@),
        (spec_route(m, p).0 == RouteKind::Sensors) <==> (m == "GET"@ && p == "/api/sensors"@),
{
    lemma_route_literals();
}

/// The readings and the switch list are each reached exactly by a `GET` of their own path.
pub proof fn law_fixed_paths_readings(m: Seq<char>, p: Seq<char>)
    ensures
        (spec_route(m, p).0 == RouteKind::Readings) <==> (m == "GET"@ && p == "/api/readings"@),
        (spec_route(m, p).0 == RouteKind::SwitchesList) <==> (m == "GET"@ && p == "/api/devices/switches"@),
{
    lemma_route_literals();
    if p == "/api/readings"@ {
        assert(p.subrange(0, 13)[5] == p[5]);
    }
    if p == "/api/devices/switches"@ {
        assert(p.subrange(0, 13)[5] == p[5]);
    }
}

/// Command execution and permit-join are each reached exactly by a `POST` of their own path.
pub proof fn law_fixed_paths_commands(m: Seq<char>, p: Seq<char>)
    ensures
        (spec_route(m, p).0 == RouteKind::ExecuteCommand) <==> (m == "POST"@ && p == "/api/commands/execute"@),
        (spec_route(m, p).0 == RouteKind::PermitJoin) <==> (m == "POST"@ && p == "/api/zigbee/permit_join"@),
{
    lemma_route_literals();
    if p == "/api/commands/execute"@ {
        assert(p.subrange(0, 13)[5] == p[5]);
    }
    if p == "/api/zigbee/permit_join"@ {
        assert(p.subrange(0, 13)[5] == p[5]);
    }
}

/// The rule list, rule creation and the execution logs are each reached exactly by a request with their own method and path.
pub proof fn law_fixed_paths_rules(m: Seq<char>, p: Seq<char>)
    ensures
        (spec_route(m, p).0 == RouteKind::AutomationRules) <==> (m == "GET"@ && p == "/api/automation/rules"@),
        (spec_route(m, p).0 == RouteKind::CreateAutomationRule) <==> (m == "POST"@ && p == "/api/automation/rules"@),
        (spec_route(m, p).0 == RouteKind::ExecutionLogs) <==> (m == "GET"@ && p == "/api/automation/logs"@),
{
    lemma_route_literals();
    if p == "/api/automation/rules"@ {
        assert(p.subrange(0, 13)[5] == p[5]);
    }
    if p == "/api/automation/rules"@ {
        assert(p.subrange(0, 13)[5] == p[5]);
    }
    if p == "/api/automation/logs"@ {
        assert(p.subrange(0, 13)[5] == p[5]);
    }
}

/// The log list and a log view are each reached exactly by a `GET` of their own path.
pub proof fn law_fixed_paths_logs(m: Seq<char>, p: Seq<char>)
    ensures
        (spec_route(m, p).0 == RouteKind::LogsList) <==> (m == "GET"@ && p == "/api/logs/list"@),
        (spec_route(m, p).0 == RouteKind::LogView) <==> (m == "GET"@ && p == "/api/logs/view"@),
{
    lemma_route_literals();
    if p == "/api/logs/list"@ {
        assert(p.subrange(0, 13)[5] == p[5]);
    }
    if p == "/api/logs/view"@ {
        assert(p.subrange(0, 13)[5] == p[5]);
    }
}

/// Log-since, process history and the WebSocket endpoint are each reached exactly by a `GET` of their own path.
pub proof fn law_fixed_paths_history(m: Seq<char>, p: Seq<char>)
    ensures
        (spec_route(m, p).0 == RouteKind::LogSince) <==> (m == "GET"@ && p == "/api/logs/since"@),
        (spec_route(m, p).0 == RouteKind::ProcessHistory) <==> (m == "GET"@ && p == "/api/logs/process"@),
        (spec_route(m, p).0 == RouteKind::WebSocket) <==> (m == "GET"@ && p == "/ws"@),
{
    lemma_route_literals();
    if p == "/api/logs/since"@ {
        assert(p.subrange(0, 13)[5] == p[5]);
    }
    if p == "/api/logs/process"@ {
        assert(p.subrange(0, 13)[5] == p[5]);
    }
}

fn rule_id(path: &str) -> (r: &str)
    requires
        starts_with(path@, RULES_PREFIX@),
    ensures
        r@ == rule_id_of(path@),
{
    path.substring_char(RULES_PREFIX.unicode_len(), path.unicode_len())
}

/// Decide which endpoint serves `method` and `path`.
pub fn route<'a>(method: &str, path: &'a str) -> (r: Route<'a>)
    ensures
        route_view(r) == spec_route(method@, path@),
{
    let get = str_eq(method, "GET");
    let post = str_eq(method, "POST");
    if get && str_eq(path, "/") {
        return Route::Index;
    }
    if get && str_eq(path, "/health") {
        return Route::Health;
    }
    if get && str_eq(path, "/api/sensors") {
        return Route::Sensors;
    }
    if get && str_eq(path, "/api/readings") {
        return Route::Readings;
    }
    if get && str_eq(path, "/api/devices/switches") {
        return Route::SwitchesList;
    }
    if get {
        if let Some(d) = DeviceStatePath::parse(path) {
            return Route::DeviceState(d.device_id);
        }
    }
    if post && str_eq(path, "/api/commands/execute") {
        return Route::ExecuteCommand;
    }
    if post && str_eq(path, "/api/zigbee/permit_join") {
        return Route::PermitJoin;
    }
    if str_eq(method, "PATCH") && str_starts_with(path, DEVICE_STATE_PREFIX) {
        return Route::UpdateDevice;
    }
    if get && str_eq(path, "/api/automation/rules") {
        return Route::AutomationRules;
    }
    let rules_prefixed = str_starts_with(path, RULES_PREFIX);
    if get && rules_prefixed {
        return Route::AutomationRule(rule_id(path));
    }
    if post && str_eq(path, "/api/automation/rules") {
        return Route::CreateAutomationRule;
    }
    if str_eq(method, "PUT") && rules_prefixed {
        return Route::UpdateAutomationRule(rule_id(path));
    }
    if str_eq(method, "DELETE") && rules_prefixed {
        return Route::DeleteAutomationRule(rule_id(path));
    }
    if get && str_eq(path, "/api/automation/logs") {
        return Route::ExecutionLogs;
    }
    if get && str_eq(path, "/api/logs/list") {
        return Route::LogsList;
    }
    if get && str_eq(path, "/api/logs/view") {
        return Route::LogView;
    }
    if get && str_eq(path, "/api/logs/since") {
        return Route::LogSince;
    }
    if get && str_eq(path, "/api/logs/process") {
        return Route::ProcessHistory;
    }
    if get && str_eq(path, "/ws") {
        return Route::WebSocket;
    }
    if str_starts_with(path, "/assets/") || str_ends_with(path, ".svg") {
        return Route::StaticAsset;
    }
    Route::NotFound
}

} // verus!
