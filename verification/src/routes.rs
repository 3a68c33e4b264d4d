//! The three routes of the server. The control page and its control endpoint
//! live under the session name; static assets live under a prefix of their
//! own, which no session name changes.

use vstd::prelude::*;
use vstd::string::StringExecFns;

verus! {

/// The route of the static assets, with its two parameters.
pub const STATIC_ROUTE: &'static str = "/static/{subdir}/{static_asset}";

/// What parts the segments of a route.
pub const SLASH: &'static str = "/";

/// The control endpoint, relative to the control page.
pub const CONTROL_PREFIX: &'static str = "control/";

/// The parameter of the control route: the identifier of the action.
pub const CONTROL_PARAMETER: &'static str = "{control}";

/// The route of the control page of a session.
pub open spec fn index_route_text(session_id: Seq<char>) -> Seq<char> {
    SLASH@ + session_id + SLASH@
}

/// The route of the control endpoint of a session, with its parameter.
pub open spec fn control_route_text(session_id: Seq<char>) -> Seq<char> {
    index_route_text(session_id) + CONTROL_PREFIX@ + CONTROL_PARAMETER@
}

/// The path of the control endpoint for one action of a session.
pub open spec fn control_path_text(session_id: Seq<char>, action_id: Seq<char>) -> Seq<char> {
    index_route_text(session_id) + CONTROL_PREFIX@ + action_id
}

/// Builds the route of the control page. The session name is taken as it
/// is: whoever configures one answers for its being a plain path segment.
pub fn index_route(session_id: &str) -> (route: String)
    ensures
        route@ == index_route_text(session_id@),
{
    let mut route = String::from_str(SLASH);
    route.append(session_id);
    route.append(SLASH);
    route
}

/// Builds the route of the control endpoint.
pub fn control_route(session_id: &str) -> (route: String)
    ensures
        route@ == control_route_text(session_id@),
{
    let mut route = index_route(session_id);
    route.append(CONTROL_PREFIX);
    route.append(CONTROL_PARAMETER);
    route
}

/// Builds the path under which one action of a session is triggered.
pub fn control_path(session_id: &str, action_id: &str) -> (path: String)
    ensures
        path@ == control_path_text(session_id@, action_id@),
{
    let mut path = index_route(session_id);
    path.append(CONTROL_PREFIX);
    path.append(action_id);
    path
}

} // verus!
