//! Hyperlift applications: builds, logs, metrics, scaling and environment.

use vstd::prelude::*;
use crate::cli::{HyperliftCommand, HyperliftEnvCommand};
use crate::client::{
    ApiRequest, Method, RequestView, bare, call, call_with, num, num_param, outcome, pairs_view,
    query_of, query_string, seg_path, seg_path_then, segment, with_body,
};
use crate::commands::{Action, ActionView, Completion, CompletionView, action_outcome, input};
use crate::commands::sellerhub::{paged, paged_call, take_error, take_range_error};
use crate::error::{Error, ErrorCode, ErrorView, opt_view, plain};
use crate::json::{Json, JsonView, entry_models, push_member};
use crate::text::append_str;

verus! {

/// The path of an application.
pub open spec fn app_path(id: Seq<char>) -> Seq<char> {
    "hyperlift/applications/"@ + segment(id)
}

pub open spec fn env_hint() -> Seq<char> {
    "{\"NODE_ENV\": \"production\"} or {\"items\": {...}}"@
}

/// A log page: `take` and an optional cursor.
pub open spec fn log_page(path: Seq<char>, take: u32, cursor: Option<Seq<char>>) -> Result<ActionView, ErrorView> {
    if take < 1 || take > 100 {
        Err(take_error())
    } else {
        Ok(
            ActionView::Call(
                bare(Method::Get, path + query_string(seq![("take"@, num(take)), ("cursor"@, cursor)])),
            ),
        )
    }
}

/// What a Hyperlift command does, or why it is refused.
pub open spec fn hyperlift_plan(cmd: HyperliftCommand) -> Result<ActionView, ErrorView> {
    match cmd {
        HyperliftCommand::List { take, skip } => Ok(
            ActionView::Call(paged("hyperlift/applications"@, take, skip)),
        ),
        HyperliftCommand::Get { id } => Ok(ActionView::Call(bare(Method::Get, app_path(id@)))),
        HyperliftCommand::Build { id } => Ok(ActionView::Call(bare(Method::Post, app_path(id@) + "/build"@))),
        HyperliftCommand::BuildLogs { id, take, cursor } => log_page(
            app_path(id@) + "/build-logs"@,
            take,
            opt_view(cursor),
        ),
        HyperliftCommand::Logs { id, take, cursor } => log_page(app_path(id@) + "/logs"@, take, opt_view(cursor)),
        HyperliftCommand::Metrics { id, start, end, interval, metrics } => Ok(
            ActionView::Call(
                bare(
                    Method::Get,
                    app_path(id@) + "/metrics"@ + query_string(
                        seq![
                            ("startDate"@, Some(start@)),
                            ("endDate"@, Some(end@)),
                            ("interval"@, Some(interval@)),
                            ("metrics"@, Some(metrics@)),
                        ],
                    ),
                ),
            ),
        ),
        HyperliftCommand::Restart { id } => Ok(
            ActionView::Call(bare(Method::Post, app_path(id@) + "/restart"@)),
        ),
        HyperliftCommand::Scale { id, scale } => {
            if scale > 1 {
                Err(plain(ErrorCode::InvalidInput, "--scale must be 0 (stop) or 1 (start)."@))
            } else {
                Ok(
                    ActionView::Call(
                        with_body(
                            Method::Put,
                            app_path(id@) + "/scale"@,
                            JsonView::Object(seq![("scale"@, JsonView::PosInt(scale as u64))]),
                        ),
                    ),
                )
            }
        },
        HyperliftCommand::Env(HyperliftEnvCommand::Get { id }) => Ok(
            ActionView::Call(bare(Method::Get, app_path(id@) + "/environment"@)),
        ),
        HyperliftCommand::Env(HyperliftEnvCommand::Assign { id, file }) => Ok(
            input(opt_view(file), env_hint(), CompletionView::HyperliftEnv { id: id@ }),
        ),
    }
}

/// The call that replaces an application's environment: an object whose
/// `items` is an object is sent as it is, any other object is sent as `items`;
/// anything but an object is refused.
pub open spec fn env_plan(id: Seq<char>, body: JsonView) -> Result<RequestView, ErrorView> {
    if !(body is Object) {
        Err(plain(ErrorCode::InvalidInput, "Expected a JSON object mapping variable names to values."@))
    } else {
        let payload = match body.member("items"@) {
            Some(JsonView::Object(_)) => body,
            _ => JsonView::Object(seq![("items"@, body)]),
        };
        Ok(with_body(Method::Put, app_path(id) + "/environment"@, payload))
    }
}

/// A log page call.
pub fn log_page_call(id: &str, tail: &str, take: u32, cursor: Option<String>) -> (r: Result<Action, Error>)
    ensures
        action_outcome(r) == log_page(app_path(id@) + tail@, take, opt_view(cursor)),
{
    if take < 1 || take > 100 {
        return Err(take_range_error());
    }
    let mut pairs: Vec<(&str, Option<String>)> = Vec::new();
    pairs.push(("take", num_param(take)));
    pairs.push(("cursor", cursor));
    proof {
        assert(pairs_view(pairs@) =~= seq![("take"@, num(take)), ("cursor"@, opt_view(cursor))]);
    }
    let q = query_of(pairs);
    let mut p = seg_path_then("hyperlift/applications/", id, tail);
    append_str(&mut p, q.as_str());
    Ok(Action::Call(call(Method::Get, p)))
}

/// What a Hyperlift command does, or why it is refused.
pub fn run(cmd: HyperliftCommand) -> (r: Result<Action, Error>)
    ensures
        action_outcome(r) == hyperlift_plan(cmd),
{
    match cmd {
        HyperliftCommand::List { take, skip } => Ok(Action::Call(paged_call("hyperlift/applications", take, skip))),
        HyperliftCommand::Get { id } => Ok(
            Action::Call(call(Method::Get, seg_path("hyperlift/applications/", id.as_str()))),
        ),
        HyperliftCommand::Build { id } => Ok(
            Action::Call(call(Method::Post, seg_path_then("hyperlift/applications/", id.as_str(), "/build"))),
        ),
        HyperliftCommand::BuildLogs { id, take, cursor } => log_page_call(id.as_str(), "/build-logs", take, cursor),
        HyperliftCommand::Logs { id, take, cursor } => log_page_call(id.as_str(), "/logs", take, cursor),
        HyperliftCommand::Metrics { id, start, end, interval, metrics } => {
            let ghost sv = start@;
            let ghost ev = end@;
            let ghost iv = interval@;
            let ghost mv = metrics@;
            let mut pairs: Vec<(&str, Option<String>)> = Vec::new();
            pairs.push(("startDate", Some(start)));
            pairs.push(("endDate", Some(end)));
            pairs.push(("interval", Some(interval)));
            pairs.push(("metrics", Some(metrics)));
            proof {
                assert(pairs_view(pairs@) =~= seq![
                    ("startDate"@, Some(sv)),
                    ("endDate"@, Some(ev)),
                    ("interval"@, Some(iv)),
                    ("metrics"@, Some(mv)),
                ]);
            }
            let q = query_of(pairs);
            let mut p = seg_path_then("hyperlift/applications/", id.as_str(), "/metrics");
            append_str(&mut p, q.as_str());
            Ok(Action::Call(call(Method::Get, p)))
        },
        HyperliftCommand::Restart { id } => Ok(
            Action::Call(call(Method::Post, seg_path_then("hyperlift/applications/", id.as_str(), "/restart"))),
        ),
        HyperliftCommand::Scale { id, scale } => {
            if scale > 1 {
                return Err(Error::invalid("--scale must be 0 (stop) or 1 (start).".to_owned()));
            }
            let mut m: Vec<(String, Json)> = Vec::new();
            push_member(&mut m, "scale", Json::PosInt(scale as u64));
            proof {
                assert(entry_models(m@) =~= seq![("scale"@, JsonView::PosInt(scale as u64))]);
            }
            Ok(
                Action::Call(
                    call_with(
                        Method::Put,
                        seg_path_then("hyperlift/applications/", id.as_str(), "/scale"),
                        Json::Object(m),
                    ),
                ),
            )
        },
        HyperliftCommand::Env(HyperliftEnvCommand::Get { id }) => Ok(
            Action::Call(call(Method::Get, seg_path_then("hyperlift/applications/", id.as_str(), "/environment"))),
        ),
        HyperliftCommand::Env(HyperliftEnvCommand::Assign { id, file }) => Ok(
            Action::Input {
                file,
                hint: "{\"NODE_ENV\": \"production\"} or {\"items\": {...}}".to_owned(),
                then: Completion::HyperliftEnv { id },
            },
        ),
    }
}

/// The call that replaces an application's environment, or why the input is refused.
pub fn env_request(id: &str, body: Json) -> (r: Result<ApiRequest, Error>)
    ensures
        outcome(r) == env_plan(id@, body@),
{
    if !body.is_object() {
        return Err(Error::invalid("Expected a JSON object mapping variable names to values.".to_owned()));
    }
    let items_is_object = match body.get("items") {
        Some(x) => x.is_object(),
        None => false,
    };
    let payload = if items_is_object {
        body
    } else {
        let mut m: Vec<(String, Json)> = Vec::new();
        let ghost bv = body@;
        push_member(&mut m, "items", body);
        proof {
            assert(entry_models(m@) =~= seq![("items"@, bv)]);
        }
        Json::Object(m)
    };
    Ok(call_with(Method::Put, seg_path_then("hyperlift/applications/", id, "/environment"), payload))
}

/// Whether an object's `items` member is itself an object.
pub open spec fn items_object(body: JsonView) -> bool {
    body.member("items"@) is Some && body.member("items"@)->Some_0 is Object
}

/// The environment call for an object always carries an `items` member that
/// is an object: an input whose `items` is an object is sent as it is, any
/// other input object is sent whole as the value of `items`. Input that is
/// not an object is refused.
pub proof fn law_environment_under_items(id: Seq<char>, body: JsonView)
    ensures
        !(body is Object) ==> env_plan(id, body) is Err,
        body is Object ==> ({
            let r = env_plan(id, body);
            &&& r is Ok
            &&& r->Ok_0.method == Method::Put
            &&& r->Ok_0.body is Some
            &&& r->Ok_0.body->Some_0.member("items"@) is Some
            &&& r->Ok_0.body->Some_0.member("items"@)->Some_0 is Object
        }),
        body is Object && items_object(body) ==> env_plan(id, body)->Ok_0.body == Some(body),
        body is Object && !items_object(body) ==> ({
            let p = env_plan(id, body)->Ok_0.body->Some_0;
            p.member("items"@) == Some(body) && p != body
        }),
{
    if body is Object && !items_object(body) {
        let p = JsonView::Object(seq![("items"@, body)]);
        assert(seq![("items"@, body)][0].0 == "items"@);
        assert(p.member("items"@) == Some(body));
    }
}

} // verus!
