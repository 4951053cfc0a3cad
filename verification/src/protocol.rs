//! The request/response protocol: the message set shared by daemon and
//! client, and the daemon-side dispatch of one request against the registry.
//!
//! Every well-formed request is answered by exactly one response. A mutation
//! that needs an adapter is answered in two steps: `handle_request` validates
//! it against the registry and hands back the adapter action to perform, and
//! `finish_action` turns the adapter's outcome into the response.

use vstd::prelude::*;

use crate::model::{
    InterfaceConfig, NetworkInterface, NetworkMetrics, ConfigView, IfaceView, MetricsView,
};
use crate::registry::{
    NetworkManager, RegistryError, RegView, EntryView, ErrView, ConnectStep,
    request_connect_spec, request_disconnect_spec, request_configure_spec, complete_connect_spec,
    complete_disconnect_spec, complete_configure_spec, outcome_view, find_idx, lemma_find_idx,
};

verus! {

/// A client request. Each request yields exactly one response.
#[derive(Clone, Debug, PartialEq)]
pub enum Request {
    GetInterfaces,
    ConnectInterface { name: String },
    DisconnectInterface { name: String },
    ConfigureInterface { name: String, config: InterfaceConfig },
    GetMetrics { name: String },
}

/// Spec-level counterpart of `Request`.
pub ghost enum RequestView {
    GetInterfaces,
    ConnectInterface { name: Seq<char> },
    DisconnectInterface { name: Seq<char> },
    ConfigureInterface { name: Seq<char>, config: ConfigView },
    GetMetrics { name: Seq<char> },
}

impl View for Request {
    type V = RequestView;

    open spec fn view(&self) -> RequestView {
        match self {
            Request::GetInterfaces => RequestView::GetInterfaces,
            Request::ConnectInterface { name } => RequestView::ConnectInterface { name: name@ },
            Request::DisconnectInterface { name } => RequestView::DisconnectInterface {
                name: name@,
            },
            Request::ConfigureInterface { name, config } => RequestView::ConfigureInterface {
                name: name@,
                config: config@,
            },
            Request::GetMetrics { name } => RequestView::GetMetrics { name: name@ },
        }
    }
}

/// A daemon response.
#[derive(Clone, Debug, PartialEq)]
pub enum Response {
    InterfaceList { interfaces: Vec<NetworkInterface> },
    Success { message: String },
    Error { message: String },
    Metrics { metrics: NetworkMetrics },
}

/// Spec-level counterpart of `Response`.
pub ghost enum ResponseView {
    InterfaceList { interfaces: Seq<IfaceView> },
    Success { message: Seq<char> },
    Error { message: Seq<char> },
    Metrics { metrics: MetricsView },
}

impl View for Response {
    type V = ResponseView;

    open spec fn view(&self) -> ResponseView {
        match self {
            Response::InterfaceList { interfaces } => ResponseView::InterfaceList {
                interfaces: interfaces@.map_values(|i: NetworkInterface| i@),
            },
            Response::Success { message } => ResponseView::Success { message: message@ },
            Response::Error { message } => ResponseView::Error { message: message@ },
            Response::Metrics { metrics } => ResponseView::Metrics { metrics: metrics@ },
        }
    }
}

/// An adapter operation that the connection manager must perform before the
/// response can be produced.
#[derive(Clone, Debug, PartialEq)]
pub enum AdapterAction {
    Connect { name: String },
    Disconnect { name: String },
    Configure { name: String, config: InterfaceConfig },
}

/// Spec-level counterpart of `AdapterAction`.
pub ghost enum ActionView {
    Connect { name: Seq<char> },
    Disconnect { name: Seq<char> },
    Configure { name: Seq<char>, config: ConfigView },
}

impl View for AdapterAction {
    type V = ActionView;

    open spec fn view(&self) -> ActionView {
        match self {
            AdapterAction::Connect { name } => ActionView::Connect { name: name@ },
            AdapterAction::Disconnect { name } => ActionView::Disconnect { name: name@ },
            AdapterAction::Configure { name, config } => ActionView::Configure {
                name: name@,
                config: config@,
            },
        }
    }
}

/// What one dispatched request amounts to: an immediate reply, or an adapter
/// action whose outcome `finish_action` will turn into the reply.
#[derive(Clone, Debug, PartialEq)]
pub enum DispatchStep {
    Reply(Response),
    Invoke(AdapterAction),
}

/// Spec-level counterpart of `DispatchStep`.
pub ghost enum StepView {
    Reply(ResponseView),
    Invoke(ActionView),
}

impl View for DispatchStep {
    type V = StepView;

    open spec fn view(&self) -> StepView {
        match self {
            DispatchStep::Reply(r) => StepView::Reply(r@),
            DispatchStep::Invoke(a) => StepView::Invoke(a@),
        }
    }
}

/// The message carried by an `Error` response for each refusal.
pub open spec fn err_message(e: ErrView) -> Seq<char> {
    match e {
        ErrView::NotFound => "interface not found"@,
        ErrView::Busy => "interface busy"@,
        ErrView::AdapterFailure(r) => "adapter failure: "@ + r,
        ErrView::ProtocolError => "invalid request"@,
        ErrView::Unavailable => "metrics unavailable"@,
    }
}

/// Executable form of `err_message`.
pub fn err_message_exec(e: &RegistryError) -> (r: String)
    ensures
        r@ == err_message(e@),
{
    match e {
        RegistryError::NotFound => String::from_str("interface not found"),
        RegistryError::Busy => String::from_str("interface busy"),
        RegistryError::AdapterFailure(reason) => String::from_str("adapter failure: ").concat(
            reason.as_str(),
        ),
        RegistryError::ProtocolError => String::from_str("invalid request"),
        RegistryError::Unavailable => String::from_str("metrics unavailable"),
    }
}

/// The interface list a registry state answers with.
pub open spec fn reg_ifaces(r: RegView) -> Seq<IfaceView> {
    r.entries.map_values(|e: EntryView| e.iface)
}

/// Dispatch of one request against the registry: the registry afterwards,
/// and the reply or the adapter action to perform.
///
/// A connect of an already connected interface is answered as a no-op
/// `Success`; a disconnect of an interface out of any session is invalid and
/// answered with an `Error` (`request_disconnect_spec`).
pub open spec fn handle_request_spec(r: RegView, q: RequestView) -> (RegView, StepView) {
    match q {
        RequestView::GetInterfaces => (
            r,
            StepView::Reply(ResponseView::InterfaceList { interfaces: reg_ifaces(r) }),
        ),
        RequestView::GetMetrics { name } => {
            let i = find_idx(r.entries, name);
            if i >= 0 {
                (
                    r,
                    StepView::Reply(
                        ResponseView::Metrics { metrics: r.entries[i].iface.metrics },
                    ),
                )
            } else {
                (
                    r,
                    StepView::Reply(
                        ResponseView::Error { message: err_message(ErrView::NotFound) },
                    ),
                )
            }
        },
        RequestView::ConnectInterface { name } => match request_connect_spec(r, name) {
            Result::Ok((r2, ConnectStep::Dispatch)) => (
                r2,
                StepView::Invoke(ActionView::Connect { name: name }),
            ),
            Result::Ok((r2, ConnectStep::AlreadyConnected)) => (
                r2,
                StepView::Reply(ResponseView::Success { message: "already connected"@ }),
            ),
            Result::Err(e) => (r, StepView::Reply(ResponseView::Error { message: err_message(e) })),
        },
        RequestView::DisconnectInterface { name } => match request_disconnect_spec(r, name) {
            Result::Ok(r2) => (r2, StepView::Invoke(ActionView::Disconnect { name: name })),
            Result::Err(e) => (r, StepView::Reply(ResponseView::Error { message: err_message(e) })),
        },
        RequestView::ConfigureInterface { name, config } => match request_configure_spec(
            r,
            name,
            config,
        ) {
            Result::Ok(r2) => (
                r2,
                StepView::Invoke(ActionView::Configure { name: name, config: config }),
            ),
            Result::Err(e) => (r, StepView::Reply(ResponseView::Error { message: err_message(e) })),
        },
    }
}

/// The response produced once an adapter action's outcome is known.
pub open spec fn finish_action_spec(
    r: RegView,
    a: ActionView,
    outcome: Result<(), Seq<char>>,
) -> (RegView, ResponseView) {
    let completed = match a {
        ActionView::Connect { name } => complete_connect_spec(r, name, outcome),
        ActionView::Disconnect { name } => complete_disconnect_spec(r, name, outcome),
        ActionView::Configure { name, config } => complete_configure_spec(r, name, config, outcome),
    };
    match completed {
        Result::Ok(r2) => (
            r2,
            match outcome {
                Result::Ok(_) => ResponseView::Success { message: "ok"@ },
                Result::Err(reason) => ResponseView::Error {
                    message: err_message(ErrView::AdapterFailure(reason)),
                },
            },
        ),
        Result::Err(e) => (r, ResponseView::Error { message: err_message(e) }),
    }
}

/// Executable form of `handle_request_spec`.
pub fn handle_request(reg: &mut NetworkManager, req: &Request) -> (r: DispatchStep)
    requires
        old(reg).wf(),
    ensures
        final(reg).wf(),
        (final(reg)@, r@) == handle_request_spec(old(reg)@, req@),
{
    match req {
        Request::GetInterfaces => {
            let interfaces = reg.get_interfaces();
            let r = DispatchStep::Reply(Response::InterfaceList { interfaces });
            proof {
                assert(r@->Reply_0->InterfaceList_interfaces =~= reg_ifaces(reg@));
            }
            r
        },
        Request::GetMetrics { name } => match reg.get_interface(name.as_str()) {
            Option::Some(i) => DispatchStep::Reply(Response::Metrics { metrics: i.metrics }),
            Option::None => DispatchStep::Reply(
                Response::Error { message: err_message_exec(&RegistryError::NotFound) },
            ),
        },
        Request::ConnectInterface { name } => match reg.request_connect(name.as_str()) {
            Result::Ok(ConnectStep::Dispatch) => DispatchStep::Invoke(
                AdapterAction::Connect { name: name.clone() },
            ),
            Result::Ok(ConnectStep::AlreadyConnected) => DispatchStep::Reply(
                Response::Success { message: String::from_str("already connected") },
            ),
            Result::Err(e) => DispatchStep::Reply(
                Response::Error { message: err_message_exec(&e) },
            ),
        },
        Request::DisconnectInterface { name } => match reg.request_disconnect(name.as_str()) {
            Result::Ok(_) => DispatchStep::Invoke(
                AdapterAction::Disconnect { name: name.clone() },
            ),
            Result::Err(e) => DispatchStep::Reply(
                Response::Error { message: err_message_exec(&e) },
            ),
        },
        Request::ConfigureInterface { name, config } => match reg.request_configure(
            name.as_str(),
            config,
        ) {
            Result::Ok(_) => DispatchStep::Invoke(
                AdapterAction::Configure { name: name.clone(), config: config.duplicate() },
            ),
            Result::Err(e) => DispatchStep::Reply(
                Response::Error { message: err_message_exec(&e) },
            ),
        },
    }
}

/// Executable form of `finish_action_spec`.
pub fn finish_action(
    reg: &mut NetworkManager,
    action: &AdapterAction,
    outcome: Result<(), String>,
) -> (r: Response)
    requires
        old(reg).wf(),
    ensures
        final(reg).wf(),
        (final(reg)@, r@) == finish_action_spec(old(reg)@, action@, outcome_view(outcome)),
{
    let ghost o = outcome_view(outcome);
    let failure_msg: Option<String> = match &outcome {
        Result::Ok(_) => Option::None,
        Result::Err(reason) => Option::Some(
            err_message_exec(&RegistryError::AdapterFailure(reason.clone())),
        ),
    };
    let completed: Result<(), RegistryError> = match action {
        AdapterAction::Connect { name } => reg.complete_connect(name.as_str(), outcome),
        AdapterAction::Disconnect { name } => reg.complete_disconnect(name.as_str(), outcome),
        AdapterAction::Configure { name, config } => reg.complete_configure(
            name.as_str(),
            config,
            outcome,
        ),
    };
    match completed {
        Result::Ok(_) => match failure_msg {
            Option::None => Response::Success { message: String::from_str("ok") },
            Option::Some(m) => Response::Error { message: m },
        },
        Result::Err(e) => Response::Error { message: err_message_exec(&e) },
    }
}

/// What one received line amounts to: a reply line to write back (and
/// whether to close the connection afterwards), or an adapter action whose
/// outcome `finish_action` will turn into the reply.
#[derive(Clone, Debug, PartialEq)]
pub enum LineStep {
    Reply { line: String, close: bool },
    Invoke { action: AdapterAction },
}

/// Spec-level counterpart of `LineStep`.
pub ghost enum LineStepView {
    Reply { line: Seq<char>, close: bool },
    Invoke { action: ActionView },
}

impl View for LineStep {
    type V = LineStepView;

    open spec fn view(&self) -> LineStepView {
        match self {
            LineStep::Reply { line, close } => LineStepView::Reply {
                line: line@,
                close: *close,
            },
            LineStep::Invoke { action } => LineStepView::Invoke { action: action@ },
        }
    }
}

/// One received line against the registry: a malformed line is answered with
/// an `Error` response and closes the connection; a well-formed request is
/// dispatched, and its immediate reply (if any) is encoded back onto the
/// wire.
pub open spec fn handle_line_spec(r: RegView, line: Seq<char>) -> (RegView, LineStepView) {
    match crate::codec::parse_request_line_spec(line) {
        Option::None => (
            r,
            LineStepView::Reply {
                line: crate::codec::response_line(
                    ResponseView::Error { message: err_message(ErrView::ProtocolError) },
                ),
                close: true,
            },
        ),
        Option::Some(q) => {
            let stepped = handle_request_spec(r, q);
            match stepped.1 {
                StepView::Reply(resp) => (
                    stepped.0,
                    LineStepView::Reply {
                        line: crate::codec::response_line(resp),
                        close: false,
                    },
                ),
                StepView::Invoke(a) => (stepped.0, LineStepView::Invoke { action: a }),
            }
        },
    }
}

/// Executable form of `handle_line_spec`.
pub fn handle_line(reg: &mut NetworkManager, line: &str) -> (r: LineStep)
    requires
        old(reg).wf(),
    ensures
        final(reg).wf(),
        (final(reg)@, r@) == handle_line_spec(old(reg)@, line@),
{
    match crate::codec::parse_request_line(line) {
        Option::None => {
            let resp = Response::Error {
                message: err_message_exec(&RegistryError::ProtocolError),
            };
            LineStep::Reply { line: crate::codec::encode_response_line(&resp), close: true }
        },
        Option::Some(q) => match handle_request(reg, &q) {
            DispatchStep::Reply(resp) => LineStep::Reply {
                line: crate::codec::encode_response_line(&resp),
                close: false,
            },
            DispatchStep::Invoke(action) => LineStep::Invoke { action },
        },
    }
}

} // verus!
