//! The request dispatcher: admitting a request, selecting targets,
//! building per-target requests, classifying per-target outcomes and
//! running the response-selection strategy state machine.

use vstd::prelude::*;

use crate::config::headers::{apply_transforms, hdr_contains, transform, Headers};
use crate::config::listener::{method_allowed_spec, ListenerConfig};
use crate::config::response::{
    distinct_ids, empty_resp, find_first_spec, override_empty_spec, pick_one_or_error_spec,
    pick_one_or_override_spec, pick_two_spec, HttpResponse, RespEntryView, RespView,
    ResponseConfig, ResponseKind, ResponsesMap,
};
use crate::config::strategy::ResponseStrategy;
use crate::config::target::{
    target_frame_of, target_id_spec, targets_view, uri_host_of, uri_valid, ConditionView,
    TargetConfig, TargetOnErrorAction, TargetView,
};
use crate::context::Context;
use crate::template::{subst_spec, substitute};
use vstd::utf8::encode_utf8;

verus! {

/// The outcome of one upstream call: a full response, a transport error of
/// a known kind, or an elapsed per-target deadline.
pub enum ResponseResult {
    Success(HttpResponse),
    HyperError(UpstreamErrorKind),
    Timeout,
}

/// How an upstream transport error is classified.
#[derive(PartialEq, Eq, Structural, Clone, Copy, Debug)]
pub enum UpstreamErrorKind {
    Connect,
    Closed,
    Other,
}

/// The specification-level form of an outcome.
pub enum OutcomeView {
    Success(RespView),
    HyperError(UpstreamErrorKind),
    Timeout,
}

impl View for ResponseResult {
    type V = OutcomeView;

    open spec fn view(&self) -> OutcomeView {
        match self {
            ResponseResult::Success(r) => OutcomeView::Success(r@),
            ResponseResult::HyperError(k) => OutcomeView::HyperError(*k),
            ResponseResult::Timeout => OutcomeView::Timeout,
        }
    }
}

/// An inbound request, materialized as plain values: the request line
/// parts, the headers, and the body bytes read once.
pub struct InboundRequest {
    pub method: String,
    pub path: String,
    pub host: Option<String>,
    pub query: Option<String>,
    pub uri_full: String,
    pub headers: Vec<(String, String)>,
    pub body: Vec<u8>,
}

/// The specification-level form of an inbound request.
pub struct InboundView {
    pub method: Seq<char>,
    pub path: Seq<char>,
    pub host: Option<Seq<char>>,
    pub query: Option<Seq<char>>,
    pub uri_full: Seq<char>,
    pub headers: Seq<(Seq<char>, Seq<char>)>,
    pub body: Seq<u8>,
}

impl View for InboundRequest {
    type V = InboundView;

    open spec fn view(&self) -> InboundView {
        InboundView {
            method: self.method@,
            path: self.path@,
            host: match self.host {
                Some(ref h) => Some(h@),
                None => None,
            },
            query: match self.query {
                Some(ref q) => Some(q@),
                None => None,
            },
            uri_full: self.uri_full@,
            headers: crate::context::pairs_view(self.headers@),
            body: self.body@,
        }
    }
}

/// The status an error outcome maps to: an explicit override wins; else
/// connect and closed errors give 502, a timeout 504, anything else 500.
pub open spec fn error_status_of(e: &ResponseResult, status: Option<u16>) -> u16 {
    match status {
        Some(s) => s,
        None => match e {
            ResponseResult::HyperError(UpstreamErrorKind::Connect) => 502,
            ResponseResult::HyperError(UpstreamErrorKind::Closed) => 502,
            ResponseResult::HyperError(UpstreamErrorKind::Other) => 500,
            ResponseResult::Timeout => 504,
            ResponseResult::Success(_) => 500,
        },
    }
}

// ---------------------------------------------------------------------
// Phase B: target selection.
// ---------------------------------------------------------------------

/// Whether a target is selected under the ordinary strategies: no
/// condition and `default` always select; a filter selects when satisfied.
pub open spec fn selects(t: TargetView, flag: bool) -> bool {
    match t.condition {
        None => true,
        Some(ConditionView::Default) => true,
        Some(ConditionView::Filter) => flag,
    }
}

/// The declaration-ordered indices of the targets selected under the
/// ordinary strategies, among the first `n`.
pub open spec fn standard_selection_upto(ts: Seq<TargetView>, flags: Seq<bool>, n: int) -> Seq<int>
    decreases n,
{
    if n <= 0 {
        Seq::empty()
    } else {
        let rest = standard_selection_upto(ts, flags, n - 1);
        if selects(ts[n - 1], flags[n - 1]) {
            rest.push(n - 1)
        } else {
            rest
        }
    }
}

pub open spec fn standard_selection(ts: Seq<TargetView>, flags: Seq<bool>) -> Seq<int> {
    standard_selection_upto(ts, flags, ts.len() as int)
}

/// The conditional-routing state over the first `n` targets: the chosen
/// index, or `Err` when two filters were simultaneously satisfied.  A
/// `default` target installs itself only into an empty choice; a
/// satisfied filter installs itself into an empty choice, replaces a
/// chosen `default`, and clashes with a chosen filter.
pub open spec fn cond_route_upto(ts: Seq<TargetView>, flags: Seq<bool>, n: int) -> Result<
    Option<int>,
    (),
>
    decreases n,
{
    if n <= 0 {
        Ok(None)
    } else {
        match cond_route_upto(ts, flags, n - 1) {
            Err(()) => Err(()),
            Ok(chosen) => {
                if ts[n - 1].condition == Some(ConditionView::Default) {
                    match chosen {
                        None => Ok(Some(n - 1)),
                        Some(c) => Ok(Some(c)),
                    }
                } else if ts[n - 1].condition == Some(ConditionView::Filter) && flags[n - 1] {
                    match chosen {
                        None => Ok(Some(n - 1)),
                        Some(c) => if ts[c].condition == Some(ConditionView::Default) {
                            Ok(Some(n - 1))
                        } else {
                            Err(())
                        },
                    }
                } else {
                    Ok(chosen)
                }
            },
        }
    }
}

pub open spec fn cond_route(ts: Seq<TargetView>, flags: Seq<bool>) -> Result<Option<int>, ()> {
    cond_route_upto(ts, flags, ts.len() as int)
}

/// The outcome of target selection: the selected indices in declaration
/// order, or the conditional-routing ambiguity.  An ambiguous selection
/// carries no targets, so nothing is dispatched upstream for it.
pub enum TargetSelection {
    Selected(Vec<usize>),
    Ambiguous,
}

pub open spec fn indices_view(v: Seq<usize>) -> Seq<int> {
    Seq::new(v.len(), |i: int| v[i] as int)
}

/// Selects the targets of one request.  Under `conditional_routing` the
/// singleton choice (or none) is selected, and two simultaneously
/// satisfied filters yield `Ambiguous`; under every other strategy each
/// target with no condition or a `default` condition is selected, and
/// each filter target is selected when its flag is set.
pub fn select_targets(
    strategy: &ResponseStrategy,
    targets: &Vec<TargetConfig>,
    flags: &Vec<bool>,
) -> (r: TargetSelection)
    requires
        flags@.len() == targets@.len(),
    ensures
        *strategy is ConditionalRouting ==> (match cond_route(targets_view(targets@), flags@) {
            Err(()) => r is Ambiguous,
            Ok(None) => r matches TargetSelection::Selected(v) && v@.len() == 0,
            Ok(Some(c)) => r matches TargetSelection::Selected(v) && indices_view(v@) == seq![c],
        }),
        !(*strategy is ConditionalRouting) ==> (r matches TargetSelection::Selected(v)
            && indices_view(v@) == standard_selection(targets_view(targets@), flags@)),
        r matches TargetSelection::Selected(v) ==> forall|k: int|
            0 <= k < v@.len() ==> #[trigger] v@[k] < targets@.len(),
        r matches TargetSelection::Selected(v) ==> forall|a: int, b: int|
            0 <= a < b < v@.len() ==> v@[a] < v@[b],
{
    let ghost ts = targets_view(targets@);
    let n = targets.len();
    if matches!(strategy, ResponseStrategy::ConditionalRouting) {
        let mut chosen: Option<usize> = None;
        let mut i: usize = 0;
        while i < n
            invariant
                *strategy is ConditionalRouting,
                n == targets@.len(),
                flags@.len() == n,
                ts == targets_view(targets@),
                i <= n,
                cond_route_upto(ts, flags@, i as int) == Ok::<Option<int>, ()>(
                    match chosen {
                        Some(c) => Some(c as int),
                        None => None,
                    },
                ),
                chosen matches Some(c) ==> c < n,
            decreases n - i,
        {
            let is_default = match targets[i].condition() {
                Some(c) => c.is_default(),
                None => false,
            };
            let is_filter = match targets[i].condition() {
                Some(c) => !c.is_default(),
                None => false,
            };
            if is_default {
                if chosen.is_none() {
                    chosen = Some(i);
                }
            } else if is_filter && flags[i] {
                match chosen {
                    None => {
                        chosen = Some(i);
                    },
                    Some(c) => {
                        let chosen_default = match targets[c].condition() {
                            Some(cc) => cc.is_default(),
                            None => false,
                        };
                        if chosen_default {
                            chosen = Some(i);
                        } else {
                            proof {
                                assert(cond_route_upto(ts, flags@, i + 1) is Err);
                                lemma_cond_route_err_stays(ts, flags@, i + 1, ts.len() as int);
                            }
                            return TargetSelection::Ambiguous;
                        }
                    },
                }
            }
            i = i + 1;
        }
        match chosen {
            Some(c) => {
                let mut v: Vec<usize> = Vec::new();
                v.push(c);
                proof {
                    assert(indices_view(v@) =~= seq![c as int]);
                }
                TargetSelection::Selected(v)
            },
            None => TargetSelection::Selected(Vec::new()),
        }
    } else {
        let mut v: Vec<usize> = Vec::new();
        let mut i: usize = 0;
        while i < n
            invariant
                n == targets@.len(),
                flags@.len() == n,
                ts == targets_view(targets@),
                i <= n,
                indices_view(v@) == standard_selection_upto(ts, flags@, i as int),
                forall|k: int| 0 <= k < v@.len() ==> #[trigger] v@[k] < i,
                forall|a: int, b: int| 0 <= a < b < v@.len() ==> v@[a] < v@[b],
            decreases n - i,
        {
            let selected = match targets[i].condition() {
                None => true,
                Some(c) => {
                    if c.is_default() {
                        true
                    } else {
                        flags[i]
                    }
                },
            };
            if selected {
                v.push(i);
                proof {
                    assert(indices_view(v@) =~= standard_selection_upto(ts, flags@, i + 1));
                }
            } else {
                proof {
                    assert(indices_view(v@) =~= standard_selection_upto(ts, flags@, i + 1));
                }
            }
            i = i + 1;
        }
        TargetSelection::Selected(v)
    }
}

proof fn lemma_cond_route_err_stays(ts: Seq<TargetView>, flags: Seq<bool>, m: int, n: int)
    requires
        0 <= m <= n,
        cond_route_upto(ts, flags, m) is Err,
    ensures
        cond_route_upto(ts, flags, n) is Err,
    decreases n - m,
{
    if m < n {
        lemma_cond_route_err_stays(ts, flags, m + 1, n);
    }
}

// ---------------------------------------------------------------------
// Phase C (compute): building one upstream request.
// ---------------------------------------------------------------------

/// One upstream request, ready to dispatch: method, URL, headers, body.
pub struct PreparedRequest {
    pub method: String,
    pub url: String,
    pub headers: Headers,
    pub body: Vec<u8>,
}

/// The specification-level form of a prepared request.
pub struct PreparedView {
    pub method: Seq<char>,
    pub url: Seq<char>,
    pub headers: Seq<(Seq<char>, Seq<char>)>,
    pub body: Seq<u8>,
}

impl View for PreparedRequest {
    type V = PreparedView;

    open spec fn view(&self) -> PreparedView {
        PreparedView {
            method: self.method@,
            url: self.url@,
            headers: self.headers@,
            body: self.body@,
        }
    }
}

/// What building one upstream request yields, at the target scope
/// `frames`: the URL is the target's template substituted; the headers
/// are the listener-shaped base headers after the target's transforms,
/// with `Host` derived from the URL when still absent; the body is the
/// target's template substituted, or the inbound bytes.  `None` when the
/// substituted URL does not parse, or no `Host` can be derived.
pub open spec fn prepared_request_spec(
    t: TargetView,
    base: Seq<(Seq<char>, Seq<char>)>,
    inbound: InboundView,
    frames: Seq<Seq<(Seq<char>, Seq<char>)>>,
) -> Option<PreparedView> {
    let url = subst_spec(t.url, frames);
    if !uri_valid(url) {
        None
    } else {
        let hs = match t.headers {
            Some(ts) => apply_transforms(base, ts, frames),
            None => base,
        };
        if hdr_contains(hs, "Host"@) {
            Some(
                PreparedView {
                    method: inbound.method,
                    url,
                    headers: hs,
                    body: prepared_body(t, inbound, frames),
                },
            )
        } else {
            match uri_host_of(url) {
                Some(h) => Some(
                    PreparedView {
                        method: inbound.method,
                        url,
                        headers: hs.push(("Host"@, h)),
                        body: prepared_body(t, inbound, frames),
                    },
                ),
                None => None,
            }
        }
    }
}

/// The body of one upstream request: the target's template substituted,
/// or the inbound bytes.
pub open spec fn prepared_body(
    t: TargetView,
    inbound: InboundView,
    frames: Seq<Seq<(Seq<char>, Seq<char>)>>,
) -> Seq<u8> {
    match t.body {
        Some(b) => encode_utf8(subst_spec(b, frames)),
        None => inbound.body,
    }
}

/// Builds one upstream request at the target scope `tctx`.
pub fn build_target_request(
    target: &TargetConfig,
    base_headers: &Headers,
    req: &InboundRequest,
    tctx: &Context,
) -> (r: Option<PreparedRequest>)
    ensures
        (match r {
            Some(ref p) => Some(p@),
            None => None::<PreparedView>,
        }) == prepared_request_spec(target@, base_headers@, req@, tctx@),
{
    let url = substitute(target.url(), tctx);
    match crate::config::target::url_host(url.as_str()) {
        None => None,
        Some(host_opt) => {
            let mut headers = base_headers.duplicate();
            match target.headers() {
                Some(ts) => transform(&mut headers, ts, tctx),
                None => {},
            }
            if !headers.contains_name("Host") {
                match host_opt {
                    Some(h) => {
                        headers.push(String::from_str("Host"), h);
                    },
                    None => {
                        return None;
                    },
                }
            }
            let body: Vec<u8> = match target.body() {
                Some(b) => {
                    let text = substitute(b.as_str(), tctx);
                    text.as_str().as_bytes_vec()
                },
                None => {
                    let mut copy: Vec<u8> = Vec::new();
                    copy.extend_from_slice(req.body.as_slice());
                    proof {
                        assert(copy@ =~= req@.body);
                    }
                    copy
                },
            };
            Some(PreparedRequest { method: req.method.clone(), url, headers, body })
        },
    }
}

// ---------------------------------------------------------------------
// Phase D: classifying outcomes.
// ---------------------------------------------------------------------

/// What one outcome stores in the result map: a response as-is; an error
/// shaped by the target's `on_error` policy; nothing for `drop`.
pub open spec fn classify_spec(t: TargetView, oc: OutcomeView) -> Option<RespView> {
    match oc {
        OutcomeView::Success(r) => Some(r),
        _ => match t.on_error {
            TargetOnErrorAction::Propagate => Some(empty_resp(outcome_error_status(oc, None))),
            TargetOnErrorAction::Status => Some(
                empty_resp(outcome_error_status(oc, t.error_status)),
            ),
            TargetOnErrorAction::Drop => None,
        },
    }
}

/// `error_status_of` over outcome views.
pub open spec fn outcome_error_status(oc: OutcomeView, status: Option<u16>) -> u16 {
    match status {
        Some(s) => s,
        None => match oc {
            OutcomeView::HyperError(UpstreamErrorKind::Connect) => 502,
            OutcomeView::HyperError(UpstreamErrorKind::Closed) => 502,
            OutcomeView::HyperError(UpstreamErrorKind::Other) => 500,
            OutcomeView::Timeout => 504,
            OutcomeView::Success(_) => 500,
        },
    }
}

/// The entry one selected target contributes to the result map.
pub open spec fn result_entry_spec(
    t: TargetView,
    oc: OutcomeView,
    frames: Seq<Seq<(Seq<char>, Seq<char>)>>,
) -> RespEntryView {
    RespEntryView {
        id: target_id_spec(t),
        resp: classify_spec(t, oc),
        ctx: frames.push(target_frame_of(t)),
    }
}

/// Classifies the outcomes of the selected targets into the ordered
/// result map, keyed by target id in declaration order, each entry
/// carrying its target-scope context.
pub fn classify_outcomes(
    listener: &ListenerConfig,
    selected: &Vec<usize>,
    outcomes: Vec<ResponseResult>,
    request_ctx: &Context,
) -> (r: ResponsesMap)
    requires
        outcomes@.len() == selected@.len(),
        forall|k: int| 0 <= k < selected@.len() ==> #[trigger] selected@[k] < listener@.targets.len(),
    ensures
        r@.len() == selected@.len(),
        forall|k: int|
            0 <= k < selected@.len() ==> #[trigger] r@[k] == result_entry_spec(
                listener@.targets[selected@[k] as int],
                outcomes@[k]@,
                request_ctx@,
            ),
{

    let cfg = listener.response();
    let mut map = ResponsesMap::new();
    let ghost orig = outcomes@;
    let mut pending = outcomes;
    let n = selected.len();
    let mut k: usize = 0;
    while k < n
        invariant
            n == selected@.len(),
            orig.len() == n,
            pending@.len() == n - k,
            forall|m: int| 0 <= m < n ==> #[trigger] selected@[m] < listener@.targets.len(),
            forall|m: int| 0 <= m < n - k ==> pending@[m] == orig[m + k],
            map@.len() == k,
            forall|m: int|
                0 <= m < k ==> #[trigger] map@[m] == result_entry_spec(
                    listener@.targets[selected@[m] as int],
                    orig[m]@,
                    request_ctx@,
                ),
        decreases n - k,
    {
        let i = selected[k];
        let targets = listener.targets();
        let target = &targets[i];
        let tctx = request_ctx.with_target(target);
        let outcome = pending.remove(0);
        let resp: Option<HttpResponse> = match outcome {
            ResponseResult::Success(resp) => Some(resp),
            other => {
                match target.on_error() {
                    TargetOnErrorAction::Propagate => Some(cfg.error_response(other, &None)),
                    TargetOnErrorAction::Status => {
                        let st = target.error_status();
                        Some(cfg.error_response(other, &st))
                    },
                    TargetOnErrorAction::Drop => None,
                }
            },
        };
        map.push(target.id(), resp, tctx);
        k = k + 1;
    }
    map
}

// ---------------------------------------------------------------------
// Phase E: the strategy state machine.
// ---------------------------------------------------------------------

/// The final response of one request, from the ordered result map: the
/// strategy picks first-ok, first-failed, the selector's target, the
/// conditionally-routed target, or the override, as configured.
pub open spec fn final_response_spec(
    strategy: ResponseStrategy,
    cfg: crate::config::response::ResponseConfigView,
    rs: Seq<RespEntryView>,
    cond_id: Option<Seq<char>>,
    frames: Seq<Seq<(Seq<char>, Seq<char>)>>,
) -> RespView {
    let ok_id = find_first_spec(rs, cfg.failed_status_regex, false);
    let failed_id = find_first_spec(rs, cfg.failed_status_regex, true);
    let sel_id = cfg.target_selector;
    match strategy {
        ResponseStrategy::AlwaysOverride => override_empty_spec(cfg, 200, frames),
        ResponseStrategy::OkThenOverride => pick_one_or_override_spec(cfg, ok_id, rs, frames),
        ResponseStrategy::FailedThenOverride => pick_one_or_override_spec(
            cfg,
            failed_id,
            rs,
            frames,
        ),
        ResponseStrategy::OkThenTargetId => pick_two_spec(cfg, ok_id, sel_id, rs, frames),
        ResponseStrategy::FailedThenTargetId => pick_two_spec(cfg, failed_id, sel_id, rs, frames),
        ResponseStrategy::OkThenFailed => pick_two_spec(cfg, ok_id, failed_id, rs, frames),
        ResponseStrategy::FailedThenOk => pick_two_spec(cfg, failed_id, ok_id, rs, frames),
        ResponseStrategy::AlwaysTargetId => pick_one_or_error_spec(cfg, sel_id, rs, frames),
        ResponseStrategy::ConditionalRouting => pick_one_or_error_spec(cfg, cond_id, rs, frames),
    }
}

/// Runs the strategy state machine over the result map and produces the
/// final response, at the request scope `ctx`.
pub fn select_final_response(
    strategy: &ResponseStrategy,
    cfg: &ResponseConfig,
    responses: ResponsesMap,
    conditional_target_id: Option<String>,
    ctx: &Context,
) -> (r: HttpResponse)
    requires
        distinct_ids(responses@),
    ensures
        r@ == final_response_spec(
            *strategy,
            cfg@,
            responses@,
            match conditional_target_id {
                Some(ref id) => Some(id@),
                None => None::<Seq<char>>,
            },
            ctx@,
        ),
{
    let ok_target_id = cfg.find_first_response(&responses, ResponseKind::Success);
    let failed_target_id = cfg.find_first_response(&responses, ResponseKind::Failed);
    let selector_target_id: Option<String> = match cfg.target_selector() {
        Some(s) => Some(s.clone()),
        None => None,
    };
    match strategy {
        ResponseStrategy::AlwaysOverride => cfg.override_empty_response(200, ctx),
        ResponseStrategy::OkThenOverride => cfg.select_target_or_override_response(
            ok_target_id,
            responses,
            ctx,
        ),
        ResponseStrategy::FailedThenOverride => cfg.select_target_or_override_response(
            failed_target_id,
            responses,
            ctx,
        ),
        ResponseStrategy::OkThenTargetId => cfg.select_from_two_targets_response(
            ok_target_id,
            selector_target_id,
            responses,
            ctx,
        ),
        ResponseStrategy::FailedThenTargetId => cfg.select_from_two_targets_response(
            failed_target_id,
            selector_target_id,
            responses,
            ctx,
        ),
        ResponseStrategy::OkThenFailed => cfg.select_from_two_targets_response(
            ok_target_id,
            failed_target_id,
            responses,
            ctx,
        ),
        ResponseStrategy::FailedThenOk => cfg.select_from_two_targets_response(
            failed_target_id,
            ok_target_id,
            responses,
            ctx,
        ),
        ResponseStrategy::AlwaysTargetId => cfg.select_target_or_error_response(
            selector_target_id,
            responses,
            ctx,
        ),
        ResponseStrategy::ConditionalRouting => cfg.select_target_or_error_response(
            conditional_target_id,
            responses,
            ctx,
        ),
    }
}

/// Admits or rejects a request by method: a rejected method is answered
/// `405 Method Not Allowed` and nothing is dispatched.
pub fn admit_request(listener: &ListenerConfig, req: &InboundRequest) -> (r: Option<HttpResponse>)
    ensures
        match r {
            Some(resp) => !method_allowed_spec(listener@.methods, req@.method) && resp@
                == empty_resp(405),
            None => method_allowed_spec(listener@.methods, req@.method),
        },
{
    if listener.is_method_allowed(req.method.as_str()) {
        None
    } else {
        Some(listener.response().empty_response(405))
    }
}


/// The result-map entries of the selected targets, as
/// `classify_outcomes` stores them.
pub open spec fn result_entries_spec(
    ts: Seq<TargetView>,
    selected: Seq<usize>,
    outcomes: Seq<OutcomeView>,
    frames: Seq<Seq<(Seq<char>, Seq<char>)>>,
) -> Seq<RespEntryView> {
    Seq::new(selected.len() as nat, |k: int| result_entry_spec(ts[selected[k] as int], outcomes[k], frames))
}

/// The outcomes of one request, seen at the specification level.
pub open spec fn outcomes_view(ocs: Seq<ResponseResult>) -> Seq<OutcomeView> {
    Seq::new(ocs.len(), |k: int| ocs[k]@)
}

/// Classifies the outcomes of the selected targets and runs the strategy
/// state machine: the whole result-shaping half of one request, from the
/// joined outcomes to the final response.
pub fn finish_request(
    listener: &ListenerConfig,
    selected: &Vec<usize>,
    outcomes: Vec<ResponseResult>,
    conditional_target_id: Option<String>,
    request_ctx: &Context,
) -> (r: HttpResponse)
    requires
        crate::config::target::targets_valid(listener@.targets),
        outcomes@.len() == selected@.len(),
        forall|k: int| 0 <= k < selected@.len() ==> #[trigger] selected@[k] < listener@.targets.len(),
        forall|a: int, b: int| 0 <= a < b < selected@.len() ==> selected@[a] < selected@[b],
    ensures
        r@ == final_response_spec(
            listener@.strategy,
            listener@.response,
            result_entries_spec(listener@.targets, selected@, outcomes_view(outcomes@), request_ctx@),
            match conditional_target_id {
                Some(ref id) => Some(id@),
                None => None::<Seq<char>>,
            },
            request_ctx@,
        ),
{
    let ghost entries = result_entries_spec(
        listener@.targets,
        selected@,
        outcomes_view(outcomes@),
        request_ctx@,
    );
    let responses = classify_outcomes(listener, selected, outcomes, request_ctx);
    proof {
        assert(responses@ =~= entries);
        assert forall|i: int, j: int|
            0 <= i < j < responses@.len() implies responses@[i].id != responses@[j].id by {
            assert(responses@[i].id == target_id_spec(
                listener@.targets[selected@[i] as int],
            ));
            assert(responses@[j].id == target_id_spec(
                listener@.targets[selected@[j] as int],
            ));
            assert(selected@[i] < selected@[j]);
        }
    }
    select_final_response(
        listener.strategy(),
        listener.response(),
        responses,
        conditional_target_id,
        request_ctx,
    )
}

// ---------------------------------------------------------------------
// Laws of the dispatcher.
// ---------------------------------------------------------------------

/// When no target was selected (the result map is empty, and conditional
/// routing chose none without flagging ambiguity), the final status is
/// `no_targets_status`, for every strategy that does not answer with the
/// override (`always_override` and the `*_then_override` strategies
/// answer an overridden empty `200` instead), provided the override sets
/// no status of its own.
pub proof fn lemma_no_target_final_status(
    strategy: ResponseStrategy,
    cfg: crate::config::response::ResponseConfigView,
    frames: Seq<Seq<(Seq<char>, Seq<char>)>>,
)
    requires
        strategy is AlwaysTargetId || strategy is OkThenTargetId || strategy
            is FailedThenTargetId || strategy is OkThenFailed || strategy is FailedThenOk
            || strategy is ConditionalRouting,
        match cfg.override_config {
            Some(o) => o.status is None,
            None => true,
        },
    ensures
        final_response_spec(strategy, cfg, Seq::empty(), None, frames).status
            == cfg.no_targets_status,
{
    let rs = Seq::<RespEntryView>::empty();
    assert(find_first_spec(rs, cfg.failed_status_regex, false) is None);
    assert(find_first_spec(rs, cfg.failed_status_regex, true) is None);
    assert(crate::config::response::stored_response(rs, match cfg.target_selector {
        Some(id) => id,
        None => Seq::empty(),
    }) is None);
}

/// `find_first` honors declaration order, whatever the completion order
/// was: when entry `a` stores the first non-failed response in
/// declaration order, `find_first` of the ok kind names it.
pub proof fn lemma_find_first_declaration_order(
    rs: Seq<RespEntryView>,
    pattern: Seq<char>,
    a: int,
)
    requires
        0 <= a < rs.len(),
        rs[a].resp matches Some(r) && !crate::config::response::status_matches_failed(
            pattern,
            r.status,
        ),
        forall|k: int|
            0 <= k < a ==> (match #[trigger] rs[k].resp {
                Some(r) => crate::config::response::status_matches_failed(pattern, r.status),
                None => true,
            }),
    ensures
        find_first_spec(rs, pattern, false) == Some(rs[a].id),
    decreases a,
{
    if a > 0 {
        lemma_find_first_declaration_order(rs.drop_first(), pattern, a - 1);
    }
}

/// The declaration-order law carried to the strategies: with two targets
/// where the one declared second is failed and the one declared first
/// stored a non-failed response, every `ok_then_*` strategy answers with
/// the first one's response, overridden at its response scope.
pub proof fn lemma_ok_then_picks_declared_first(
    strategy: ResponseStrategy,
    cfg: crate::config::response::ResponseConfigView,
    rs: Seq<RespEntryView>,
    cond_id: Option<Seq<char>>,
    frames: Seq<Seq<(Seq<char>, Seq<char>)>>,
    a: RespView,
    b: RespView,
)
    requires
        strategy is OkThenOverride || strategy is OkThenTargetId || strategy is OkThenFailed,
        rs.len() == 2,
        rs[0].resp == Some(a),
        rs[1].resp == Some(b),
        rs[0].id != rs[1].id,
        !crate::config::response::status_matches_failed(cfg.failed_status_regex, a.status),
        crate::config::response::status_matches_failed(cfg.failed_status_regex, b.status),
    ensures
        final_response_spec(strategy, cfg, rs, cond_id, frames)
            == crate::config::response::override_spec(
            cfg.override_config,
            a,
            crate::config::response::resp_scope(rs[0].ctx, a),
        ),
{
    lemma_find_first_declaration_order(rs, cfg.failed_status_regex, 0);
    assert(find_first_spec(rs, cfg.failed_status_regex, false) == Some(rs[0].id));
    crate::config::response::lemma_stored_response_scan(rs, rs[0].id, 0);
}

/// A target whose error outcome was dropped is indistinguishable, for
/// result picking, from one that was never selected: removing its (empty)
/// entry from the result map leaves the final response unchanged.
pub proof fn lemma_dropped_like_never_selected(
    strategy: ResponseStrategy,
    cfg: crate::config::response::ResponseConfigView,
    rs: Seq<RespEntryView>,
    i: int,
    cond_id: Option<Seq<char>>,
    frames: Seq<Seq<(Seq<char>, Seq<char>)>>,
)
    requires
        0 <= i < rs.len(),
        rs[i].resp is None,
        distinct_ids(rs),
    ensures
        final_response_spec(strategy, cfg, rs, cond_id, frames) == final_response_spec(
            strategy,
            cfg,
            rs.remove(i),
            cond_id,
            frames,
        ),
{
    let removed = rs.remove(i);
    lemma_find_first_remove_none(rs, i, cfg.failed_status_regex, false);
    lemma_find_first_remove_none(rs, i, cfg.failed_status_regex, true);
    assert forall|id: Seq<char>|
        crate::config::response::stored_response(removed, id)
            == crate::config::response::stored_response(rs, id) by {
        if id == rs[i].id {
            lemma_stored_none_distinct(rs, i);
            lemma_stored_none_distinct_removed(rs, i);
        } else {
            crate::config::response::lemma_stored_response_remove(rs, i, id);
        }
    }
}

proof fn lemma_stored_none_distinct(rs: Seq<RespEntryView>, i: int)
    requires
        0 <= i < rs.len(),
        rs[i].resp is None,
        distinct_ids(rs),
    ensures
        crate::config::response::stored_response(rs, rs[i].id) is None,
    decreases i,
{
    if i == 0 {
    } else {
        lemma_stored_none_distinct(rs.drop_first(), i - 1);
    }
}

proof fn lemma_stored_none_distinct_removed(rs: Seq<RespEntryView>, i: int)
    requires
        0 <= i < rs.len(),
        distinct_ids(rs),
    ensures
        crate::config::response::stored_response(rs.remove(i), rs[i].id) is None,
{
    assert forall|j: int|
        0 <= j < rs.remove(i).len() implies #[trigger] rs.remove(i)[j].id != rs[i].id by {
        if j < i {
            assert(rs.remove(i)[j] == rs[j]);
        } else {
            assert(rs.remove(i)[j] == rs[j + 1]);
        }
    }
    crate::config::response::lemma_stored_response_missing(rs.remove(i), rs[i].id);
}

proof fn lemma_find_first_remove_none(
    rs: Seq<RespEntryView>,
    i: int,
    pattern: Seq<char>,
    want_failed: bool,
)
    requires
        0 <= i < rs.len(),
        rs[i].resp is None,
    ensures
        find_first_spec(rs.remove(i), pattern, want_failed) == find_first_spec(
            rs,
            pattern,
            want_failed,
        ),
    decreases rs.len(),
{
    if i == 0 {
        assert(rs.remove(0) =~= rs.drop_first());
    } else {
        assert(rs.remove(i).drop_first() =~= rs.drop_first().remove(i - 1));
        lemma_find_first_remove_none(rs.drop_first(), i - 1, pattern, want_failed);
    }
}

/// Whether any filter target's flag is set.
pub open spec fn any_filter_true(ts: Seq<TargetView>, flags: Seq<bool>, n: int) -> bool
    decreases n,
{
    if n <= 0 {
        false
    } else {
        any_filter_true(ts, flags, n - 1) || (ts[n - 1].condition == Some(ConditionView::Filter)
            && flags[n - 1])
    }
}

/// The first `default` target among the first `n`, if any.
pub open spec fn first_default(ts: Seq<TargetView>, n: int) -> Option<int>
    decreases n,
{
    if n <= 0 {
        None
    } else {
        match first_default(ts, n - 1) {
            Some(d) => Some(d),
            None => if ts[n - 1].condition == Some(ConditionView::Default) {
                Some(n - 1)
            } else {
                None
            },
        }
    }
}

/// Conditional routing selects the `default` target exactly when no
/// filter condition evaluated true: with no satisfied filter the choice
/// is the first `default` (or none), and never ambiguous.
pub proof fn lemma_conditional_default_iff_no_filter(
    ts: Seq<TargetView>,
    flags: Seq<bool>,
    n: int,
)
    requires
        0 <= n <= ts.len(),
        !any_filter_true(ts, flags, n),
    ensures
        cond_route_upto(ts, flags, n) == Ok::<Option<int>, ()>(first_default(ts, n)),
    decreases n,
{
    if n > 0 {
        lemma_conditional_default_iff_no_filter(ts, flags, n - 1);
    }
}

/// The converse direction: when conditional routing chose a `default`
/// target, no filter condition evaluated true.
pub proof fn lemma_conditional_default_only_without_filter(
    ts: Seq<TargetView>,
    flags: Seq<bool>,
    n: int,
    c: int,
)
    requires
        0 <= n <= ts.len(),
        cond_route_upto(ts, flags, n) == Ok::<Option<int>, ()>(Some(c)),
        0 <= c < ts.len(),
        ts[c].condition == Some(ConditionView::Default),
    ensures
        !any_filter_true(ts, flags, n),
    decreases n,
{
    if n > 0 {
        match cond_route_upto(ts, flags, n - 1) {
            Err(()) => {},
            Ok(chosen) => {
                if ts[n - 1].condition == Some(ConditionView::Filter) && flags[n - 1] {
                    // a satisfied filter is chosen and never yields back to a default
                    lemma_cond_route_filter_stays(ts, flags, n, ts.len() as int);
                    assert(false);
                } else {
                    match chosen {
                        Some(_) => {
                            lemma_conditional_default_only_without_filter(ts, flags, n - 1, c);
                        },
                        None => {
                            lemma_cond_route_none_no_filter(ts, flags, n - 1);
                        },
                    }
                }
            },
        }
    }
}

proof fn lemma_cond_route_none_no_filter(ts: Seq<TargetView>, flags: Seq<bool>, n: int)
    requires
        0 <= n <= ts.len(),
        cond_route_upto(ts, flags, n) == Ok::<Option<int>, ()>(None::<int>),
    ensures
        !any_filter_true(ts, flags, n),
    decreases n,
{
    if n > 0 {
        match cond_route_upto(ts, flags, n - 1) {
            Err(()) => {},
            Ok(chosen) => {
                lemma_cond_route_none_no_filter(ts, flags, n - 1);
            },
        }
    }
}

proof fn lemma_cond_route_filter_stays(ts: Seq<TargetView>, flags: Seq<bool>, m: int, n: int)
    requires
        0 < m <= n <= ts.len(),
        (match cond_route_upto(ts, flags, m) {
            Ok(Some(c)) => 0 <= c < ts.len() && ts[c].condition == Some(ConditionView::Filter),
            _ => cond_route_upto(ts, flags, m) is Err,
        }),
    ensures
        match cond_route_upto(ts, flags, n) {
            Ok(Some(c)) => 0 <= c < ts.len() && ts[c].condition == Some(ConditionView::Filter),
            Ok(None) => false,
            Err(()) => true,
        },
    decreases n - m,
{
    if m < n {
        lemma_cond_route_filter_stays(ts, flags, m + 1, n);
    }
}

/// Two simultaneously satisfied filters make conditional routing
/// ambiguous: the no-target path is taken and, the selection being
/// `Ambiguous`, no target list exists to dispatch upstream.
pub proof fn lemma_two_true_filters_ambiguous(
    ts: Seq<TargetView>,
    flags: Seq<bool>,
    i: int,
    j: int,
)
    requires
        0 <= i < j < ts.len(),
        ts[i].condition == Some(ConditionView::Filter),
        ts[j].condition == Some(ConditionView::Filter),
        flags[i],
        flags[j],
    ensures
        cond_route(ts, flags) is Err,
{
    lemma_filter_chosen_or_err(ts, flags, i + 1, j + 1);
    lemma_cond_route_err_stays(ts, flags, j + 1, ts.len() as int);
}

proof fn lemma_filter_chosen_or_err(ts: Seq<TargetView>, flags: Seq<bool>, m: int, n: int)
    requires
        0 < m <= n <= ts.len(),
        ts[m - 1].condition == Some(ConditionView::Filter),
        flags[m - 1],
        n - 1 >= m ==> ts[n - 1].condition == Some(ConditionView::Filter) && flags[n - 1],
    ensures
        n - 1 >= m ==> cond_route_upto(ts, flags, n) is Err,
        match cond_route_upto(ts, flags, m) {
            Ok(Some(c)) => 0 <= c < ts.len() && ts[c].condition == Some(ConditionView::Filter),
            Ok(None) => false,
            Err(()) => true,
        },
    decreases n,
{
    // at step m the filter either installs itself, replaces a default, or clashes
    assert(match cond_route_upto(ts, flags, m) {
        Ok(Some(c)) => 0 <= c < ts.len() && ts[c].condition == Some(ConditionView::Filter),
        Ok(None) => false,
        Err(()) => true,
    }) by {
        match cond_route_upto(ts, flags, m - 1) {
            Err(()) => {},
            Ok(chosen) => {},
        }
    }
    if n - 1 >= m {
        lemma_cond_route_filter_stays(ts, flags, m, n - 1);
    }
}


} // verus!
