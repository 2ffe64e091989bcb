//! The response side of a listener: the response configuration with its
//! override rules, the response values the gateway builds, and the ordered
//! map of per-target results that the selection strategies read.

use vstd::prelude::*;

use crate::config::headers::{
    apply_transforms, hdr_find, transform, transforms_view, Headers, HeaderTransform,
    TransformView,
};
use crate::context::{response_frame, Context};
use crate::regexes::{regex_is_match, regex_match, regex_valid};
use crate::template::{subst_spec, substitute};
use crate::text::{dec_str, lower_chars, u16_to_dec};
use vstd::utf8::encode_utf8;

verus! {

pub type ResponseStatus = u16;

/// A response as the gateway holds it: status, headers, body bytes.
pub struct HttpResponse {
    pub status: u16,
    pub headers: Headers,
    pub body: Vec<u8>,
}

/// The specification-level form of a response.
pub struct RespView {
    pub status: u16,
    pub headers: Seq<(Seq<char>, Seq<char>)>,
    pub body: Seq<u8>,
}

impl View for HttpResponse {
    type V = RespView;

    open spec fn view(&self) -> RespView {
        RespView { status: self.status, headers: self.headers@, body: self.body@ }
    }
}

/// A response with the given status and nothing else.
pub open spec fn empty_resp(status: u16) -> RespView {
    RespView { status, headers: Seq::empty(), body: Seq::empty() }
}

/// Whether a status counts as failed under the configured pattern: the
/// pattern matches somewhere in the status written in decimal.
pub open spec fn status_matches_failed(pattern: Seq<char>, status: u16) -> bool {
    regex_valid(pattern) && regex_is_match(pattern, dec_str(status as int))
}

/// What `override` does to a response: replace the status when one is
/// configured, transform the headers when transforms are configured, and,
/// when a body template is configured, substitute it, set it as the body
/// and remove `Content-Length`.
pub open spec fn override_spec(
    o: Option<OverrideView>,
    r: RespView,
    frames: Seq<Seq<(Seq<char>, Seq<char>)>>,
) -> RespView {
    match o {
        None => r,
        Some(c) => {
            let st = match c.status {
                Some(s) => s,
                None => r.status,
            };
            let hs = match c.headers {
                Some(ts) => apply_transforms(r.headers, ts, frames),
                None => r.headers,
            };
            match c.body {
                Some(b) => RespView {
                    status: st,
                    headers: remove_header(hs, "Content-Length"@),
                    body: encode_utf8(subst_spec(b, frames)),
                },
                None => RespView { status: st, headers: hs, body: r.body },
            }
        },
    }
}

/// A header map without the named header.
pub open spec fn remove_header(h: Seq<(Seq<char>, Seq<char>)>, name: Seq<char>) -> Seq<
    (Seq<char>, Seq<char>),
> {
    if hdr_find(h, lower_chars(name)) >= 0 {
        h.remove(hdr_find(h, lower_chars(name)))
    } else {
        h
    }
}

/// The override part of a response configuration.
pub struct OverrideConfig {
    status: Option<u16>,
    body: Option<String>,
    headers: Option<Vec<HeaderTransform>>,
}

/// The specification-level form of an override configuration.
pub struct OverrideView {
    pub status: Option<u16>,
    pub body: Option<Seq<char>>,
    pub headers: Option<Seq<TransformView>>,
}

impl View for OverrideConfig {
    type V = OverrideView;

    closed spec fn view(&self) -> OverrideView {
        OverrideView {
            status: self.status,
            body: match self.body {
                Some(ref b) => Some(b@),
                None => None,
            },
            headers: match self.headers {
                Some(ref ts) => Some(transforms_view(ts@)),
                None => None,
            },
        }
    }
}

impl OverrideConfig {
    pub fn new(status: Option<u16>, body: Option<String>, headers: Option<Vec<HeaderTransform>>)
        -> (r: OverrideConfig)
        ensures
            r@.status == status,
            r@.body == (match body {
                Some(ref b) => Some(b@),
                None => None::<Seq<char>>,
            }),
            r@.headers == (match headers {
                Some(ref ts) => Some(transforms_view(ts@)),
                None => None::<Seq<TransformView>>,
            }),
    {
        OverrideConfig { status, body, headers }
    }
}

/// Which stored responses `find_first` looks for.
pub enum ResponseKind {
    Success,
    Failed,
}

/// The response policy of a listener.
pub struct ResponseConfig {
    target_selector: Option<String>,
    failed_status_regex: String,
    no_targets_status: u16,
    override_config: Option<OverrideConfig>,
}

/// The specification-level form of a response configuration.
pub struct ResponseConfigView {
    pub target_selector: Option<Seq<char>>,
    pub failed_status_regex: Seq<char>,
    pub no_targets_status: u16,
    pub override_config: Option<OverrideView>,
}

impl View for ResponseConfig {
    type V = ResponseConfigView;

    closed spec fn view(&self) -> ResponseConfigView {
        ResponseConfigView {
            target_selector: match self.target_selector {
                Some(ref s) => Some(s@),
                None => None,
            },
            failed_status_regex: self.failed_status_regex@,
            no_targets_status: self.no_targets_status,
            override_config: match self.override_config {
                Some(ref o) => Some(o@),
                None => None,
            },
        }
    }
}

/// An empty response shaped by the override: status as given, then the
/// override applied at the given scope.
pub open spec fn override_empty_spec(
    cfg: ResponseConfigView,
    status: u16,
    frames: Seq<Seq<(Seq<char>, Seq<char>)>>,
) -> RespView {
    override_spec(cfg.override_config, empty_resp(status), frames)
}

/// The response when no selected target yielded a usable response.
pub open spec fn no_target_spec(
    cfg: ResponseConfigView,
    frames: Seq<Seq<(Seq<char>, Seq<char>)>>,
) -> RespView {
    override_empty_spec(cfg, cfg.no_targets_status, frames)
}

/// One entry of the per-target result map.
pub struct RespEntryView {
    pub id: Seq<char>,
    pub resp: Option<RespView>,
    pub ctx: Seq<Seq<(Seq<char>, Seq<char>)>>,
}

/// The stored response and target scope under `id`, when the map holds the
/// id with a response.
pub open spec fn stored_response(rs: Seq<RespEntryView>, id: Seq<char>) -> Option<
    (RespView, Seq<Seq<(Seq<char>, Seq<char>)>>),
>
    decreases rs.len(),
{
    if rs.len() == 0 {
        None
    } else if rs[0].id == id {
        match rs[0].resp {
            Some(r) => Some((r, rs[0].ctx)),
            None => None,
        }
    } else {
        stored_response(rs.drop_first(), id)
    }
}

/// The response scope of a picked response: the target scope plus the
/// response frame.
pub open spec fn resp_scope(
    tctx: Seq<Seq<(Seq<char>, Seq<char>)>>,
    r: RespView,
) -> Seq<Seq<(Seq<char>, Seq<char>)>> {
    tctx.push(response_frame(r.status, r.headers))
}

/// Picking one target or falling back to an overridden empty `200`: when
/// `id` names a stored response, override it at its response scope; else an
/// overridden empty `200` at the request scope.
pub open spec fn pick_one_or_override_spec(
    cfg: ResponseConfigView,
    id: Option<Seq<char>>,
    rs: Seq<RespEntryView>,
    frames: Seq<Seq<(Seq<char>, Seq<char>)>>,
) -> RespView {
    match id {
        Some(i) => match stored_response(rs, i) {
            Some((r, tctx)) => override_spec(cfg.override_config, r, resp_scope(tctx, r)),
            None => override_empty_spec(cfg, 200, frames),
        },
        None => override_empty_spec(cfg, 200, frames),
    }
}

/// Picking one target or answering no-target: when `id` names a stored
/// response, override it at its response scope; else the no-target
/// response at the request scope.
pub open spec fn pick_one_or_error_spec(
    cfg: ResponseConfigView,
    id: Option<Seq<char>>,
    rs: Seq<RespEntryView>,
    frames: Seq<Seq<(Seq<char>, Seq<char>)>>,
) -> RespView {
    match id {
        Some(i) => match stored_response(rs, i) {
            Some((r, tctx)) => override_spec(cfg.override_config, r, resp_scope(tctx, r)),
            None => no_target_spec(cfg, frames),
        },
        None => no_target_spec(cfg, frames),
    }
}

/// Picking the first target that stored a response, else the second, else
/// the no-target response.
pub open spec fn pick_two_spec(
    cfg: ResponseConfigView,
    first: Option<Seq<char>>,
    second: Option<Seq<char>>,
    rs: Seq<RespEntryView>,
    frames: Seq<Seq<(Seq<char>, Seq<char>)>>,
) -> RespView {
    match first {
        Some(i) => match stored_response(rs, i) {
            Some((r, tctx)) => override_spec(cfg.override_config, r, resp_scope(tctx, r)),
            None => pick_one_or_error_spec(cfg, second, rs, frames),
        },
        None => pick_one_or_error_spec(cfg, second, rs, frames),
    }
}

/// The first id, in declaration order, whose stored response is failed
/// (`want_failed`) or not failed (`!want_failed`).
pub open spec fn find_first_spec(
    rs: Seq<RespEntryView>,
    pattern: Seq<char>,
    want_failed: bool,
) -> Option<Seq<char>>
    decreases rs.len(),
{
    if rs.len() == 0 {
        None
    } else {
        match rs[0].resp {
            Some(r) => if status_matches_failed(pattern, r.status) == want_failed {
                Some(rs[0].id)
            } else {
                find_first_spec(rs.drop_first(), pattern, want_failed)
            },
            None => find_first_spec(rs.drop_first(), pattern, want_failed),
        }
    }
}

/// The per-target results of one inbound request, in declaration order.
pub struct ResponsesMap {
    entries: Vec<(String, Option<HttpResponse>, Context)>,
}

impl View for ResponsesMap {
    type V = Seq<RespEntryView>;

    closed spec fn view(&self) -> Seq<RespEntryView> {
        Seq::new(
            self.entries@.len(),
            |i: int|
                RespEntryView {
                    id: self.entries@[i].0@,
                    resp: match self.entries@[i].1 {
                        Some(r) => Some(r@),
                        None => None,
                    },
                    ctx: self.entries@[i].2@,
                },
        )
    }
}

impl ResponsesMap {
    pub fn new() -> (r: ResponsesMap)
        ensures
            r@ == Seq::<RespEntryView>::empty(),
    {
        let r = ResponsesMap { entries: Vec::new() };
        proof {
            assert(r@ =~= Seq::<RespEntryView>::empty());
        }
        r
    }

    pub fn len(&self) -> (r: usize)
        ensures
            r == self@.len(),
    {
        self.entries.len()
    }

    /// Appends the result of one target.
    pub fn push(&mut self, id: String, resp: Option<HttpResponse>, ctx: Context)
        ensures
            final(self)@ == old(self)@.push(
                RespEntryView {
                    id: id@,
                    resp: match resp {
                        Some(ref r) => Some(r@),
                        None => None,
                    },
                    ctx: ctx@,
                },
            ),
    {
        let ghost entry = RespEntryView {
            id: id@,
            resp: match resp {
                Some(ref r) => Some(r@),
                None => None,
            },
            ctx: ctx@,
        };
        self.entries.push((id, resp, ctx));
        proof {
            assert(self@ =~= old(self)@.push(entry));
        }
    }

    /// Removes and returns the entry stored first under `id`.
    pub fn take(&mut self, id: &str) -> (r: Option<(Option<HttpResponse>, Context)>)
        ensures
            match r {
                Some(p) => {
                    &&& stored_response(old(self)@, id@) == (match p.0 {
                        Some(ref resp) => Some((resp@, p.1@)),
                        None => None::<(RespView, Seq<Seq<(Seq<char>, Seq<char>)>>)>,
                    })
                    &&& exists|i: int|
                        0 <= i < old(self)@.len() && old(self)@[i].id == id@ && final(self)@
                            == old(self)@.remove(i)
                },
                None => {
                    stored_response(old(self)@, id@) is None && final(self)@ == old(self)@
                        && (forall|i: int|
                        0 <= i < old(self)@.len() ==> #[trigger] old(self)@[i].id != id@)
                },
            },
    {
        let n = self.entries.len();
        let mut i: usize = 0;
        while i < n
            invariant
                *self == *old(self),
                n == self@.len(),
                i <= n,
                forall|j: int| 0 <= j < i ==> #[trigger] self@[j].id != id@,
            decreases n - i,
        {
            if crate::text::str_eq(self.entries[i].0.as_str(), id) {
                proof {
                    lemma_stored_response_scan(self@, id@, i as int);
                }
                let entry = self.entries.remove(i);
                proof {
                    assert(self@ =~= old(self)@.remove(i as int));
                }
                return Some((entry.1, entry.2));
            }
            i = i + 1;
        }
        proof {
            lemma_stored_response_missing(self@, id@);
        }
        None
    }
}

pub proof fn lemma_stored_response_scan(rs: Seq<RespEntryView>, id: Seq<char>, i: int)
    requires
        0 <= i < rs.len(),
        rs[i].id == id,
        forall|j: int| 0 <= j < i ==> #[trigger] rs[j].id != id,
    ensures
        stored_response(rs, id) == (match rs[i].resp {
            Some(r) => Some((r, rs[i].ctx)),
            None => None::<(RespView, Seq<Seq<(Seq<char>, Seq<char>)>>)>,
        }),
    decreases i,
{
    if i > 0 {
        lemma_stored_response_scan(rs.drop_first(), id, i - 1);
    }
}

pub proof fn lemma_stored_response_missing(rs: Seq<RespEntryView>, id: Seq<char>)
    requires
        forall|j: int| 0 <= j < rs.len() ==> #[trigger] rs[j].id != id,
    ensures
        stored_response(rs, id) is None,
    decreases rs.len(),
{
    if rs.len() > 0 {
        lemma_stored_response_missing(rs.drop_first(), id);
    }
}

impl ResponseConfig {
    pub fn new(
        target_selector: Option<String>,
        failed_status_regex: String,
        no_targets_status: u16,
        override_config: Option<OverrideConfig>,
    ) -> (r: ResponseConfig)
        ensures
            r@.target_selector == (match target_selector {
                Some(ref s) => Some(s@),
                None => None::<Seq<char>>,
            }),
            r@.failed_status_regex == failed_status_regex@,
            r@.no_targets_status == no_targets_status,
            r@.override_config == (match override_config {
                Some(ref o) => Some(o@),
                None => None::<OverrideView>,
            }),
    {
        ResponseConfig { target_selector, failed_status_regex, no_targets_status, override_config }
    }

    pub fn target_selector(&self) -> (r: &Option<String>)
        ensures
            self@.target_selector == (match r {
                Some(s) => Some(s@),
                None => None::<Seq<char>>,
            }),
    {
        &self.target_selector
    }

    pub fn failed_status_regex(&self) -> (r: &String)
        ensures
            r@ == self@.failed_status_regex,
    {
        &self.failed_status_regex
    }

    pub fn no_targets_status(&self) -> (r: u16)
        ensures
            r == self@.no_targets_status,
    {
        self.no_targets_status
    }

    /// Applies the configured override to a response.
    pub fn override_response(&self, resp: HttpResponse, ctx: &Context) -> (r: HttpResponse)
        ensures
            r@ == override_spec(self@.override_config, resp@, ctx@),
    {
        match &self.override_config {
            None => resp,
            Some(cfg) => {
                let HttpResponse { status: old_status, headers: mut headers, body } = resp;
                let status: u16 = match cfg.status {
                    Some(s) => s,
                    None => old_status,
                };
                match &cfg.headers {
                    Some(ts) => transform(&mut headers, ts, ctx),
                    None => {},
                }
                match &cfg.body {
                    Some(b) => {
                        headers.remove("Content-Length");
                        let text = substitute(b.as_str(), ctx);
                        let body = text.as_str().as_bytes_vec();
                        HttpResponse { status, headers, body }
                    },
                    None => HttpResponse { status, headers, body },
                }
            },
        }
    }

    /// The first id, in declaration order, whose stored response is of the
    /// asked kind under the configured failed-status pattern.
    pub fn find_first_response(&self, responses: &ResponsesMap, response_kind: ResponseKind) -> (r:
        Option<String>)
        ensures
            (match r {
                Some(ref id) => Some(id@),
                None => None::<Seq<char>>,
            }) == find_first_spec(
                responses@,
                self@.failed_status_regex,
                response_kind is Failed,
            ),
    {
        let want_failed = match response_kind {
            ResponseKind::Success => false,
            ResponseKind::Failed => true,
        };
        let n = responses.entries.len();
        let mut i: usize = 0;
        proof {
            assert(responses@.skip(0) =~= responses@);
        }
        while i < n
            invariant
                n == responses@.len(),
                i <= n,
                find_first_spec(responses@.skip(i as int), self@.failed_status_regex, want_failed)
                    == find_first_spec(responses@, self@.failed_status_regex, want_failed),
                want_failed == (response_kind is Failed),
            decreases n - i,
        {
            let ghost rest = responses@.skip(i as int);
            match &responses.entries[i].1 {
                Some(resp) => {
                    let status_text = u16_to_dec(resp.status);
                    let matched = regex_match(
                        self.failed_status_regex.as_str(),
                        status_text.as_str(),
                    );
                    proof {
                        assert(rest[0] == responses@[i as int]);
                        assert(rest.drop_first() =~= responses@.skip(i + 1));
                    }
                    if matched == want_failed {
                        return Some(responses.entries[i].0.clone());
                    }
                },
                None => {
                    proof {
                        assert(rest[0] == responses@[i as int]);
                        assert(rest.drop_first() =~= responses@.skip(i + 1));
                    }
                },
            }
            i = i + 1;
        }
        proof {
            assert(responses@.skip(n as int) =~= Seq::<RespEntryView>::empty());
        }
        None
    }

    /// An empty response with the given status.
    pub fn empty_response(&self, status: u16) -> (r: HttpResponse)
        ensures
            r@ == empty_resp(status),
    {
        let r = HttpResponse { status, headers: Headers::new(), body: Vec::new() };
        proof {
            assert(r@.headers =~= Seq::<(Seq<char>, Seq<char>)>::empty());
            assert(r@.body =~= Seq::<u8>::empty());
        }
        r
    }

    /// An empty response with the given status, shaped by the override.
    pub fn override_empty_response(&self, status: u16, ctx: &Context) -> (r: HttpResponse)
        ensures
            r@ == override_empty_spec(self@, status, ctx@),
    {
        let empty = self.empty_response(status);
        self.override_response(empty, ctx)
    }

    /// The response for a request no selected target answered.
    pub fn no_target_response(&self, ctx: &Context) -> (r: HttpResponse)
        ensures
            r@ == no_target_spec(self@, ctx@),
    {
        let empty = self.empty_response(self.no_targets_status);
        self.override_response(empty, ctx)
    }
}

/// The result ids are pairwise distinct.
pub open spec fn distinct_ids(rs: Seq<RespEntryView>) -> bool {
    forall|i: int, j: int| 0 <= i < j < rs.len() ==> rs[i].id != rs[j].id
}

pub proof fn lemma_stored_response_remove(rs: Seq<RespEntryView>, i: int, id: Seq<char>)
    requires
        0 <= i < rs.len(),
        rs[i].id != id,
    ensures
        stored_response(rs.remove(i), id) == stored_response(rs, id),
    decreases rs.len(),
{
    if i == 0 {
        assert(rs.remove(0) =~= rs.drop_first());
    } else {
        assert(rs.remove(i).drop_first() =~= rs.drop_first().remove(i - 1));
        lemma_stored_response_remove(rs.drop_first(), i - 1, id);
    }
}

impl ResponseConfig {
    /// The response for an error outcome: the explicit status wins; else
    /// connect and closed errors give 502, a timeout 504, anything else
    /// 500; the body stays empty.
    pub fn error_response(
        &self,
        e: crate::handler::ResponseResult,
        status: &Option<ResponseStatus>,
    ) -> (r: HttpResponse)
        ensures
            r@ == empty_resp(crate::handler::error_status_of(&e, *status)),
    {
        let code: u16 = match status {
            Some(s) => *s,
            None => match &e {
                crate::handler::ResponseResult::HyperError(kind) => match kind {
                    crate::handler::UpstreamErrorKind::Connect => 502,
                    crate::handler::UpstreamErrorKind::Closed => 502,
                    crate::handler::UpstreamErrorKind::Other => 500,
                },
                crate::handler::ResponseResult::Timeout => 504,
                crate::handler::ResponseResult::Success(_) => 500,
            },
        };
        self.empty_response(code)
    }

    /// Picks the named target's stored response and overrides it at its
    /// response scope; without one, answers an overridden empty `200`.
    pub fn select_target_or_override_response(
        &self,
        target_id: Option<String>,
        responses: ResponsesMap,
        ctx: &Context,
    ) -> (r: HttpResponse)
        ensures
            r@ == pick_one_or_override_spec(
                self@,
                match target_id {
                    Some(ref id) => Some(id@),
                    None => None::<Seq<char>>,
                },
                responses@,
                ctx@,
            ),
    {
        let mut responses = responses;
        match target_id {
            Some(id) => {
                match responses.take(id.as_str()) {
                    Some((Some(resp), tctx)) => {
                        let hv = resp.headers.entries_vec();
                        let rctx = tctx.with_response_values(resp.status, &hv);
                        self.override_response(resp, &rctx)
                    },
                    _ => self.override_empty_response(200, ctx),
                }
            },
            None => self.override_empty_response(200, ctx),
        }
    }

    /// Picks the named target's stored response and overrides it at its
    /// response scope; without one, answers the no-target response.
    pub fn select_target_or_error_response(
        &self,
        target_id: Option<String>,
        responses: ResponsesMap,
        ctx: &Context,
    ) -> (r: HttpResponse)
        ensures
            r@ == pick_one_or_error_spec(
                self@,
                match target_id {
                    Some(ref id) => Some(id@),
                    None => None::<Seq<char>>,
                },
                responses@,
                ctx@,
            ),
    {
        let mut responses = responses;
        match target_id {
            Some(id) => {
                match responses.take(id.as_str()) {
                    Some((Some(resp), tctx)) => {
                        let hv = resp.headers.entries_vec();
                        let rctx = tctx.with_response_values(resp.status, &hv);
                        self.override_response(resp, &rctx)
                    },
                    _ => self.no_target_response(ctx),
                }
            },
            None => self.no_target_response(ctx),
        }
    }

    /// Picks the first target's stored response; failing that, the
    /// second's; failing both, answers the no-target response.
    pub fn select_from_two_targets_response(
        &self,
        first_target_id: Option<String>,
        second_target_id: Option<String>,
        responses: ResponsesMap,
        ctx: &Context,
    ) -> (r: HttpResponse)
        requires
            distinct_ids(responses@),
        ensures
            r@ == pick_two_spec(
                self@,
                match first_target_id {
                    Some(ref id) => Some(id@),
                    None => None::<Seq<char>>,
                },
                match second_target_id {
                    Some(ref id) => Some(id@),
                    None => None::<Seq<char>>,
                },
                responses@,
                ctx@,
            ),
    {
        let ghost orig = responses@;
        let mut responses = responses;
        match first_target_id {
            Some(id) => {
                match responses.take(id.as_str()) {
                    Some((Some(resp), tctx)) => {
                        let hv = resp.headers.entries_vec();
                        let rctx = tctx.with_response_values(resp.status, &hv);
                        self.override_response(resp, &rctx)
                    },
                    Some((None, _)) => {
                        proof {
                            let i = choose|i: int|
                                0 <= i < orig.len() && orig[i].id == id@ && responses@
                                    == orig.remove(i);
                            assert forall|id2: Seq<char>|
                                id2 != id@ implies stored_response(responses@, id2)
                                == stored_response(orig, id2) by {
                                lemma_stored_response_remove(orig, i, id2);
                            }
                            lemma_stored_missing_after_remove(orig, i, responses@);
                        }
                        self.second_target_response(second_target_id, responses, ctx)
                    },
                    None => self.second_target_response(second_target_id, responses, ctx),
                }
            },
            None => self.second_target_response(second_target_id, responses, ctx),
        }
    }

    /// The second leg of `select_from_two_targets_response`.
    fn second_target_response(
        &self,
        second_target_id: Option<String>,
        responses: ResponsesMap,
        ctx: &Context,
    ) -> (r: HttpResponse)
        ensures
            r@ == pick_one_or_error_spec(
                self@,
                match second_target_id {
                    Some(ref id) => Some(id@),
                    None => None::<Seq<char>>,
                },
                responses@,
                ctx@,
            ),
    {
        self.select_target_or_error_response(second_target_id, responses, ctx)
    }
}

proof fn lemma_stored_missing_after_remove(
    orig: Seq<RespEntryView>,
    i: int,
    removed: Seq<RespEntryView>,
)
    requires
        distinct_ids(orig),
        0 <= i < orig.len(),
        removed == orig.remove(i),
    ensures
        forall|j: int| 0 <= j < removed.len() ==> #[trigger] removed[j].id != orig[i].id,
        stored_response(removed, orig[i].id) is None,
{
    assert forall|j: int| 0 <= j < removed.len() implies #[trigger] removed[j].id != orig[i].id by {
        if j < i {
            assert(removed[j] == orig[j]);
        } else {
            assert(removed[j] == orig[j + 1]);
        }
    }
    lemma_stored_response_missing(removed, orig[i].id);
}


/// Applying an override body removes `Content-Length`: whenever the
/// override carries a body template, the shaped response's headers hold
/// no `Content-Length` header, however the response's headers were cased.
pub proof fn lemma_override_body_removes_content_length(
    o: OverrideView,
    r: RespView,
    frames: Seq<Seq<(Seq<char>, Seq<char>)>>,
)
    requires
        o.body is Some,
        crate::config::headers::hdr_unique(r.headers),
    ensures
        !crate::config::headers::hdr_contains(
            override_spec(Some(o), r, frames).headers,
            "Content-Length"@,
        ),
{
    let hs = match o.headers {
        Some(ts) => apply_transforms(r.headers, ts, frames),
        None => r.headers,
    };
    match o.headers {
        Some(ts) => {
            crate::config::headers::lemma_apply_transforms_unique(r.headers, ts, frames);
        },
        None => {},
    }
    let lname = lower_chars("Content-Length"@);
    crate::config::headers::lemma_hdr_find_props(hs, lname);
    let idx = hdr_find(hs, lname);
    if idx >= 0 {
        let out = hs.remove(idx);
        assert forall|j: int| 0 <= j < out.len() implies lower_chars(out[j].0) != lname by {
            if j < idx {
                assert(out[j] == hs[j]);
            } else {
                assert(out[j] == hs[j + 1]);
            }
        }
        lemma_hdr_find_missing_pub(out, lname);
    } else {
        assert(!crate::config::headers::hdr_contains(hs, "Content-Length"@));
    }
}

proof fn lemma_hdr_find_missing_pub(h: Seq<(Seq<char>, Seq<char>)>, lname: Seq<char>)
    requires
        forall|m: int| 0 <= m < h.len() ==> lower_chars(h[m].0) != lname,
    ensures
        hdr_find(h, lname) == -1,
    decreases h.len(),
{
    if h.len() > 0 {
        lemma_hdr_find_missing_pub(h.drop_first(), lname);
    }
}


} // verus!
