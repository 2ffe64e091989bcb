//! Target configuration: the upstream endpoint with its templated URL,
//! header transforms, body template, timeout, error policy, optional
//! condition and TLS overrides; and the condition evaluator that runs
//! JQ-style filters over a synthesized JSON view of the request.

use vstd::prelude::*;

use crate::config::headers::{transforms_view, HeaderTransform, TransformView};
use crate::context::{flatten_frames, target_frame, Context};
use crate::errors::HttpDragonflyError;
use crate::text::{lower_chars, str_eq, to_lower};

verus! {

// ---------------------------------------------------------------------
// Trusted layer: the jaq filter engine, URI parsing, JSON validity.
// ---------------------------------------------------------------------

#[verifier::external_type_specification]
#[verifier::external_body]
#[verifier::reject_recursive_types(V)]
pub struct ExJaqFilter<V>(jaq_interpret::Filter<V>);

#[verifier::external_type_specification]
#[verifier::external_body]
pub struct ExJaqVal(jaq_interpret::Val);

#[verifier::external_type_specification]
#[verifier::external_body]
#[verifier::reject_recursive_types(V)]
pub struct ExJaqError<V>(jaq_interpret::Error<V>);

/// Whether `jaq_parse` accepts an expression without errors.
pub uninterp spec fn jq_expr_valid(expr: Seq<char>) -> bool;

/// Relies on `jaq_parse::parse` (with `jaq_parse::main()`) and
/// `jaq_interpret::ParseCtx::compile`: whether an expression parses without
/// errors depends on its text alone; the compiled filter is returned, or
/// the first parse error's text.
#[verifier::external_body]
fn jq_compile(expr: &str) -> (r: Result<jaq_interpret::Filter<jaq_interpret::Val>, String>)
    ensures
        r is Ok <==> jq_expr_valid(expr@),
{
    let mut defs = jaq_interpret::ParseCtx::new(Vec::new());
    let (f, errs) = jaq_parse::parse(expr, jaq_parse::main());
    if !errs.is_empty() {
        return Err(errs[0].to_string());
    }
    match f {
        Some(f) => Ok(defs.compile(f)),
        None => Err(String::from("invalid conditional expression")),
    }
}

/// Relies on `jaq_interpret::FilterT::run` (the input text is first read
/// with `serde_json::from_str`, an unreadable text standing in as `null`):
/// each produced value is rendered with its display form; an erroneous
/// output renders as `false`.  Nothing more is assumed of the outputs.
#[verifier::external_body]
fn jq_run(filter: &jaq_interpret::Filter<jaq_interpret::Val>, input: &str) -> (r: Vec<String>)
{
    let v: serde_json::Value = serde_json::from_str(input).unwrap_or(serde_json::Value::Null);
    let inputs = jaq_interpret::RcIter::new(core::iter::empty());
    let cv = (jaq_interpret::Ctx::new([], &inputs), jaq_interpret::Val::from(v));
    jaq_interpret::FilterT::run(filter, cv)
        .map(|x| format!("{}", x.unwrap_or(jaq_interpret::Val::Bool(false))))
        .collect()
}

/// Whether `http::Uri` accepts a text as a URI.
pub uninterp spec fn uri_valid(url: Seq<char>) -> bool;

/// The host part of a URI, for a text that `http::Uri` accepts.
pub uninterp spec fn uri_host_of(url: Seq<char>) -> Option<Seq<char>>;

/// Relies on `http::Uri`'s `FromStr` and `Uri::host`: validity and host
/// are functions of the text alone; on rejection the parse error's text is
/// returned.
#[verifier::external_body]
fn parse_uri_host(url: &str) -> (r: Result<Option<String>, String>)
    ensures
        r is Ok <==> uri_valid(url@),
        match r {
            Ok(h) => (match h {
                Some(hs) => uri_host_of(url@) == Some(hs@),
                None => uri_host_of(url@) is None,
            }),
            Err(_) => true,
        },
{
    match url.parse::<http::Uri>() {
        Ok(u) => Ok(u.host().map(|h| h.to_string())),
        Err(e) => Err(e.to_string()),
    }
}

/// Whether `serde_json` reads the bytes as a JSON value.
pub uninterp spec fn json_valid(body: Seq<u8>) -> bool;

/// Relies on `serde_json::from_slice::<serde_json::Value>`: whether bytes
/// read as JSON depends on the bytes alone.
#[verifier::external_body]
fn json_valid_bytes(body: &Vec<u8>) -> (r: bool)
    ensures
        r == json_valid(body@),
{
    serde_json::from_slice::<serde_json::Value>(body).is_ok()
}

/// Relies on `String::from_utf8`: it accepts exactly valid UTF-8 and
/// decodes it.
#[verifier::external_body]
fn bytes_to_string(body: &Vec<u8>) -> (r: Option<String>)
    ensures
        r is Some <==> vstd::utf8::valid_utf8(body@),
        match r {
            Some(s) => s@ == vstd::utf8::decode_utf8(body@),
            None => true,
        },
{
    match String::from_utf8(body.clone()) {
        Ok(s) => Some(s),
        Err(_) => None,
    }
}

// ---------------------------------------------------------------------
// Conditions.
// ---------------------------------------------------------------------

/// Exactly one produced value whose rendering is `true` satisfies a filter.
pub fn filter_satisfied(outputs: &Vec<String>) -> (r: bool)
    ensures
        r == (outputs@.len() == 1 && outputs@[0]@ == "true"@),
{
    if outputs.len() != 1 {
        return false;
    }
    str_eq(outputs[0].as_str(), "true")
}

/// A compiled JQ-style filter.
pub struct ConditionFilter {
    filter: jaq_interpret::Filter<jaq_interpret::Val>,
}

impl ConditionFilter {
    /// Compiles a filter expression; a rejected expression is a
    /// configuration validation error carrying the parser's diagnostic.
    pub fn from_str(value: &str) -> (r: Result<ConditionFilter, HttpDragonflyError>)
        ensures
            r is Ok <==> jq_expr_valid(value@),
            r matches Err(e) ==> e is ValidateConfig,
    {
        match jq_compile(value) {
            Ok(filter) => Ok(ConditionFilter { filter }),
            Err(cause) => Err(HttpDragonflyError::ValidateConfig { cause }),
        }
    }

    /// Runs the filter on a JSON text and asks whether it is satisfied:
    /// the filter must yield exactly one value rendered `true`.  What the
    /// filter yields is the jaq engine's business; only the
    /// exactly-one-`true` reading is the library's.
    pub fn run(&self, input: &str) -> bool {
        let outputs = jq_run(&self.filter, input);
        filter_satisfied(&outputs)
    }
}

/// A target's condition: the `default` sentinel, or a compiled filter.
pub enum TargetConditionConfig {
    Default,
    Filter(ConditionFilter),
}

/// The specification-level form of a condition: only its kind is visible.
pub enum ConditionView {
    Default,
    Filter,
}

impl View for TargetConditionConfig {
    type V = ConditionView;

    open spec fn view(&self) -> ConditionView {
        match self {
            TargetConditionConfig::Default => ConditionView::Default,
            TargetConditionConfig::Filter(_) => ConditionView::Filter,
        }
    }
}

impl TargetConditionConfig {
    /// Whether this condition is the `default` sentinel.
    pub fn is_default(&self) -> (r: bool)
        ensures
            r == (self@ is Default),
    {
        matches!(self, TargetConditionConfig::Default)
    }

    /// Reads a condition: the text `default` is the sentinel; anything
    /// else must compile as a filter.
    pub fn from_str(value: &str) -> (r: Result<TargetConditionConfig, HttpDragonflyError>)
        ensures
            value@ == "default"@ ==> (r matches Ok(c) && c@ is Default),
            value@ != "default"@ ==> ((r is Ok <==> jq_expr_valid(value@)) && (r matches Ok(c)
                ==> c@ is Filter)),
            r matches Err(e) ==> e is ValidateConfig,
    {
        if str_eq(value, "default") {
            Ok(TargetConditionConfig::Default)
        } else {
            match ConditionFilter::from_str(value) {
                Ok(f) => Ok(TargetConditionConfig::Filter(f)),
                Err(e) => Err(e),
            }
        }
    }
}

// ---------------------------------------------------------------------
// TLS settings.
// ---------------------------------------------------------------------

/// Whether the upstream server certificate is verified.
#[derive(PartialEq, Eq, Structural, Clone, Copy, Debug)]
pub enum TlsVerifyConfig {
    No,
    Yes,
}

/// TLS settings of a listener or a target: verification on or off, and an
/// optional custom CA bundle path.
pub struct TlsConfig {
    pub verify: TlsVerifyConfig,
    pub ca: Option<String>,
}

/// The specification-level form of TLS settings.
pub struct TlsView {
    pub verify: TlsVerifyConfig,
    pub ca: Option<Seq<char>>,
}

impl View for TlsConfig {
    type V = TlsView;

    open spec fn view(&self) -> TlsView {
        TlsView {
            verify: self.verify,
            ca: match self.ca {
                Some(ref c) => Some(c@),
                None => None,
            },
        }
    }
}

impl TlsConfig {
    pub fn new(verify: TlsVerifyConfig, ca: Option<String>) -> (r: TlsConfig)
        ensures
            r@.verify == verify,
            r@.ca == (match ca {
                Some(ref c) => Some(c@),
                None => None::<Seq<char>>,
            }),
    {
        TlsConfig { verify, ca }
    }

    /// A copy whose contents equal this one's.
    pub fn duplicate(&self) -> (r: TlsConfig)
        ensures
            r@ == self@,
    {
        TlsConfig {
            verify: self.verify,
            ca: match &self.ca {
                Some(c) => Some(c.clone()),
                None => None,
            },
        }
    }
}

impl Default for TlsConfig {
    /// Verification on, system roots.
    fn default() -> (r: TlsConfig)
        ensures
            r@.verify == TlsVerifyConfig::Yes,
            r@.ca is None,
    {
        TlsConfig { verify: TlsVerifyConfig::Yes, ca: None }
    }
}

// ---------------------------------------------------------------------
// The target itself.
// ---------------------------------------------------------------------

/// What to answer for a target whose upstream call failed.
#[derive(PartialEq, Eq, Structural, Clone, Copy, Debug)]
pub enum TargetOnErrorAction {
    Propagate,
    Status,
    Drop,
}

impl Default for TargetOnErrorAction {
    fn default() -> (r: TargetOnErrorAction)
        ensures
            r == TargetOnErrorAction::Propagate,
    {
        TargetOnErrorAction::Propagate
    }
}

/// One configured upstream endpoint.
pub struct TargetConfig {
    id: Option<String>,
    url: String,
    headers: Option<Vec<HeaderTransform>>,
    body: Option<String>,
    timeout_ms: u64,
    on_error: TargetOnErrorAction,
    error_status: Option<u16>,
    condition: Option<TargetConditionConfig>,
    tls: Option<TlsConfig>,
}

/// The specification-level form of a target.
pub struct TargetView {
    pub id: Option<Seq<char>>,
    pub url: Seq<char>,
    pub headers: Option<Seq<TransformView>>,
    pub body: Option<Seq<char>>,
    pub timeout_ms: u64,
    pub on_error: TargetOnErrorAction,
    pub error_status: Option<u16>,
    pub condition: Option<ConditionView>,
    pub tls: Option<TlsView>,
}

impl View for TargetConfig {
    type V = TargetView;

    closed spec fn view(&self) -> TargetView {
        TargetView {
            id: match self.id {
                Some(ref s) => Some(s@),
                None => None,
            },
            url: self.url@,
            headers: match self.headers {
                Some(ref ts) => Some(transforms_view(ts@)),
                None => None,
            },
            body: match self.body {
                Some(ref b) => Some(b@),
                None => None,
            },
            timeout_ms: self.timeout_ms,
            on_error: self.on_error,
            error_status: self.error_status,
            condition: match self.condition {
                Some(ref c) => Some(c@),
                None => None,
            },
            tls: match self.tls {
                Some(ref t) => Some(t@),
                None => None,
            },
        }
    }
}

/// The effective id of a target: the configured one, or `TARGET-<url>`.
pub open spec fn target_id_spec(t: TargetView) -> Seq<char> {
    match t.id {
        Some(i) => i,
        None => "TARGET-"@ + t.url,
    }
}

/// The lower-cased host of a target's URL; empty when the URL does not
/// parse or has no host.
pub open spec fn target_host_spec(t: TargetView) -> Seq<char> {
    if uri_valid(t.url) {
        match uri_host_of(t.url) {
            Some(h) => lower_chars(h),
            None => Seq::empty(),
        }
    } else {
        Seq::empty()
    }
}

/// The target-scope frame a target contributes.
pub open spec fn target_frame_of(t: TargetView) -> Seq<(Seq<char>, Seq<char>)> {
    target_frame(target_id_spec(t), target_host_spec(t))
}

/// The error-policy fields agree: `error_status` is set exactly when
/// `on_error` is `status`.
pub open spec fn error_policy_consistent(t: TargetView) -> bool {
    match t.on_error {
        TargetOnErrorAction::Status => t.error_status is Some,
        TargetOnErrorAction::Propagate => t.error_status is None,
        TargetOnErrorAction::Drop => t.error_status is None,
    }
}

/// A valid target: its URL parses and its error policy is consistent.
pub open spec fn target_valid(t: TargetView) -> bool {
    uri_valid(t.url) && error_policy_consistent(t)
}

impl TargetConfig {
    #[allow(clippy::too_many_arguments)]
    pub fn new(
        id: Option<String>,
        url: String,
        headers: Option<Vec<HeaderTransform>>,
        body: Option<String>,
        timeout_ms: u64,
        on_error: TargetOnErrorAction,
        error_status: Option<u16>,
        condition: Option<TargetConditionConfig>,
        tls: Option<TlsConfig>,
    ) -> (r: TargetConfig)
        ensures
            r@.id == (match id {
                Some(ref s) => Some(s@),
                None => None::<Seq<char>>,
            }),
            r@.url == url@,
            r@.headers == (match headers {
                Some(ref ts) => Some(transforms_view(ts@)),
                None => None::<Seq<TransformView>>,
            }),
            r@.body == (match body {
                Some(ref b) => Some(b@),
                None => None::<Seq<char>>,
            }),
            r@.timeout_ms == timeout_ms,
            r@.on_error == on_error,
            r@.error_status == error_status,
            r@.condition == (match condition {
                Some(ref c) => Some(c@),
                None => None::<ConditionView>,
            }),
            r@.tls == (match tls {
                Some(ref t) => Some(t@),
                None => None::<TlsView>,
            }),
    {
        TargetConfig {
            id,
            url,
            headers,
            body,
            timeout_ms,
            on_error,
            error_status,
            condition,
            tls,
        }
    }

    /// The effective id: the configured one, or `TARGET-<url>`.
    pub fn id(&self) -> (r: String)
        ensures
            r@ == target_id_spec(self@),
    {
        match &self.id {
            Some(i) => i.clone(),
            None => {
                let mut s = String::from_str("TARGET-");
                s.append(self.url.as_str());
                s
            },
        }
    }

    /// The lower-cased host of the URL, or empty.
    pub fn host(&self) -> (r: String)
        ensures
            r@ == target_host_spec(self@),
    {
        match parse_uri_host(self.url.as_str()) {
            Ok(Some(h)) => to_lower(h.as_str()),
            Ok(None) => String::new(),
            Err(_) => String::new(),
        }
    }

    pub fn url(&self) -> (r: &str)
        ensures
            r@ == self@.url,
    {
        self.url.as_str()
    }

    pub fn headers(&self) -> (r: &Option<Vec<HeaderTransform>>)
        ensures
            self@.headers == (match r {
                Some(ts) => Some(transforms_view(ts@)),
                None => None::<Seq<TransformView>>,
            }),
    {
        &self.headers
    }

    pub fn body(&self) -> (r: &Option<String>)
        ensures
            self@.body == (match r {
                Some(b) => Some(b@),
                None => None::<Seq<char>>,
            }),
    {
        &self.body
    }

    /// The per-target deadline, in milliseconds.
    pub fn timeout(&self) -> (r: u64)
        ensures
            r == self@.timeout_ms,
    {
        self.timeout_ms
    }

    pub fn on_error(&self) -> (r: &TargetOnErrorAction)
        ensures
            *r == self@.on_error,
    {
        &self.on_error
    }

    pub fn error_status(&self) -> (r: Option<u16>)
        ensures
            r == self@.error_status,
    {
        self.error_status
    }

    pub fn condition(&self) -> (r: &Option<TargetConditionConfig>)
        ensures
            self@.condition == (match r {
                Some(c) => Some(c@),
                None => None::<ConditionView>,
            }),
    {
        &self.condition
    }

    /// The TLS settings an upstream call uses: the target's own, or the
    /// listener's default.
    pub fn effective_tls(&self, default_tls_config: &TlsConfig) -> (r: TlsConfig)
        ensures
            r@ == (match self@.tls {
                Some(t) => t,
                None => default_tls_config@,
            }),
    {
        match &self.tls {
            Some(t) => t.duplicate(),
            None => default_tls_config.duplicate(),
        }
    }

    /// The cache key an upstream call for this target uses: its timeout
    /// and its effective TLS settings.
    pub fn https_client_key(&self, default_tls_config: &TlsConfig) -> (r: crate::cache::ClientKey)
        ensures
            r@.timeout_ms == self@.timeout_ms,
            r@.verify == (match self@.tls {
                Some(t) => t.verify,
                None => default_tls_config@.verify,
            }),
            r@.ca == (match self@.tls {
                Some(t) => t.ca,
                None => default_tls_config@.ca,
            }),
    {
        crate::cache::ClientKey {
            timeout_ms: self.timeout(),
            tls: self.effective_tls(default_tls_config),
        }
    }

    /// Checks that the URL parses, as configuration validation does.
    pub fn uri(&self) -> (r: Result<(), HttpDragonflyError>)
        ensures
            r is Ok <==> uri_valid(self@.url),
            r matches Err(e) ==> e is ValidateConfig,
    {
        match parse_uri_host(self.url.as_str()) {
            Ok(_) => Ok(()),
            Err(e) => {
                let mut cause = String::from_str("invalid url `");
                cause.append(self.url.as_str());
                cause.append("`: ");
                cause.append(e.as_str());
                Err(HttpDragonflyError::ValidateConfig { cause })
            },
        }
    }

    /// A valid target: the URL parses, and `error_status` is set exactly
    /// when `on_error` is `status`.
    pub fn validate(&self) -> (r: Result<(), HttpDragonflyError>)
        ensures
            r is Ok <==> target_valid(self@),
            r matches Err(e) ==> e is ValidateConfig,
    {
        match self.uri() {
            Err(e) => Err(e),
            Ok(()) => {
                match self.on_error {
                    TargetOnErrorAction::Propagate | TargetOnErrorAction::Drop => {
                        if self.error_status.is_some() {
                            let mut cause = String::from_str(
                                "`error_status` can be set if `on_error` is `status` only, target `",
                            );
                            cause.append(self.id().as_str());
                            cause.append("`");
                            Err(HttpDragonflyError::ValidateConfig { cause })
                        } else {
                            Ok(())
                        }
                    },
                    TargetOnErrorAction::Status => {
                        if self.error_status.is_none() {
                            let mut cause = String::from_str(
                                "`error_status` should be set if `on_error` is `status`, target `",
                            );
                            cause.append(self.id().as_str());
                            cause.append("`");
                            Err(HttpDragonflyError::ValidateConfig { cause })
                        } else {
                            Ok(())
                        }
                    },
                }
            },
        }
    }
}

/// The views of a list of targets.
pub open spec fn targets_view(ts: Seq<TargetConfig>) -> Seq<TargetView> {
    Seq::new(ts.len(), |i: int| ts[i]@)
}

/// A valid target list: non-empty, each target valid, all effective ids
/// distinct.
pub open spec fn targets_valid(ts: Seq<TargetView>) -> bool {
    &&& ts.len() > 0
    &&& forall|i: int| 0 <= i < ts.len() ==> target_valid(#[trigger] ts[i])
    &&& forall|i: int, j: int|
        0 <= i < j < ts.len() ==> target_id_spec(ts[i]) != target_id_spec(ts[j])
}

/// Validates a target list: it must be non-empty, each target valid, and
/// every effective id unique.
pub fn validate_targets(targets: &Vec<TargetConfig>) -> (r: Result<(), HttpDragonflyError>)
    ensures
        r is Ok <==> targets_valid(targets_view(targets@)),
        r matches Err(e) ==> e is ValidateConfig,
{
    let n = targets.len();
    if n == 0 {
        return Err(
            HttpDragonflyError::ValidateConfig {
                cause: String::from_str("at least one target must be configured"),
            },
        );
    }
    let mut i: usize = 0;
    while i < n
        invariant
            n == targets@.len(),
            i <= n,
            forall|j: int| 0 <= j < i ==> target_valid(#[trigger] targets_view(targets@)[j]),
        decreases n - i,
    {
        match targets[i].validate() {
            Err(e) => {
                proof {
                    assert(!target_valid(targets_view(targets@)[i as int]));
                }
                return Err(e);
            },
            Ok(()) => {},
        }
        i = i + 1;
    }
    let mut i: usize = 0;
    while i < n
        invariant
            n == targets@.len(),
            i <= n,
            forall|j: int| 0 <= j < n ==> target_valid(#[trigger] targets_view(targets@)[j]),
            forall|a: int, b: int|
                0 <= a < b < n && a < i ==> target_id_spec(targets_view(targets@)[a])
                    != target_id_spec(targets_view(targets@)[b]),
        decreases n - i,
    {
        let id_i = targets[i].id();
        let mut j = i + 1;
        while j < n
            invariant
                n == targets@.len(),
                i < n,
                i + 1 <= j <= n,
                id_i@ == target_id_spec(targets_view(targets@)[i as int]),
                forall|b: int|
                    i < b < j ==> target_id_spec(targets_view(targets@)[i as int])
                        != target_id_spec(targets_view(targets@)[b]),
            decreases n - j,
        {
            let id_j = targets[j].id();
            if str_eq(id_i.as_str(), id_j.as_str()) {
                proof {
                    assert(target_id_spec(targets_view(targets@)[i as int]) == target_id_spec(
                        targets_view(targets@)[j as int],
                    ));
                }
                return Err(
                    HttpDragonflyError::ValidateConfig {
                        cause: String::from_str(
                            "all target IDs of the listener should be unique",
                        ),
                    },
                );
            }
            j = j + 1;
        }
        i = i + 1;
    }
    Ok(())
}

/// Whether a URL parses, and its host when it does: `Some(host)` for a
/// URL that parses, `None` for one that does not.
pub fn url_host(url: &str) -> (r: Option<Option<String>>)
    ensures
        r is Some <==> uri_valid(url@),
        match r {
            Some(h) => (match h {
                Some(hs) => uri_host_of(url@) == Some(hs@),
                None => uri_host_of(url@) is None,
            }),
            None => true,
        },
{
    match parse_uri_host(url) {
        Ok(h) => Some(h),
        Err(_) => None,
    }
}

impl Context {
    /// The target-scope context of a target: its id and host on top of the
    /// request scope.
    pub fn with_target(&self, cfg: &TargetConfig) -> (r: Context)
        ensures
            r@ == self@.push(target_frame(target_id_spec(cfg@), target_host_spec(cfg@))),
    {
        self.with_target_values(cfg.id(), cfg.host())
    }
}

// ---------------------------------------------------------------------
// The synthesized JSON view of a request, for condition filters.
// ---------------------------------------------------------------------

/// The escape of one character inside a JSON string literal.
pub open spec fn json_escape_char(c: char) -> Seq<char> {
    if c == '"' {
        seq!['\\', '"']
    } else if c == '\\' {
        seq!['\\', '\\']
    } else if c == '\n' {
        seq!['\\', 'n']
    } else if c == '\r' {
        seq!['\\', 'r']
    } else if c == '\t' {
        seq!['\\', 't']
    } else if (c as u32) < 32 {
        seq!['\\', 'u', '0', '0', crate::text::digit_char(((c as u32) / 16) as int), hex_digit(
            ((c as u32) % 16) as int,
        )]
    } else {
        seq![c]
    }
}

/// The character for one hexadecimal digit.
pub open spec fn hex_digit(d: int) -> char {
    if d < 10 {
        crate::text::digit_char(d)
    } else if d == 10 {
        'a'
    } else if d == 11 {
        'b'
    } else if d == 12 {
        'c'
    } else if d == 13 {
        'd'
    } else if d == 14 {
        'e'
    } else {
        'f'
    }
}

/// A text as a JSON string literal: quoted, with its characters escaped.
pub open spec fn json_quote(s: Seq<char>) -> Seq<char> {
    seq!['"'] + s.flat_map(|c: char| json_escape_char(c)) + seq!['"']
}

fn hex_digit_exec(d: u32) -> (r: char)
    requires
        d < 16,
    ensures
        r == hex_digit(d as int),
{
    match d {
        0 => '0',
        1 => '1',
        2 => '2',
        3 => '3',
        4 => '4',
        5 => '5',
        6 => '6',
        7 => '7',
        8 => '8',
        9 => '9',
        10 => 'a',
        11 => 'b',
        12 => 'c',
        13 => 'd',
        14 => 'e',
        _ => 'f',
    }
}

/// Appends a text to `out` as a JSON string literal.
pub fn append_json_quoted(out: &mut String, s: &str)
    ensures
        final(out)@ == old(out)@ + json_quote(s@),
{
    crate::text::push_char(out, '"');
    let n = s.unicode_len();
    let mut i: usize = 0;
    proof {
        assert(s@.take(0).flat_map(|c: char| json_escape_char(c)) =~= Seq::<char>::empty());
        assert(out@ =~= old(out)@ + seq!['"'] + s@.take(0).flat_map(
            |c: char| json_escape_char(c),
        ));
    }
    while i < n
        invariant
            n == s@.len(),
            i <= n,
            out@ == old(out)@ + seq!['"'] + s@.take(i as int).flat_map(
                |c: char| json_escape_char(c),
            ),
        decreases n - i,
    {
        let c = s.get_char(i);
        let ghost pre = out@;
        if c == '"' {
            crate::text::push_char(out, '\\');
            crate::text::push_char(out, '"');
        } else if c == '\\' {
            crate::text::push_char(out, '\\');
            crate::text::push_char(out, '\\');
        } else if c == '\n' {
            crate::text::push_char(out, '\\');
            crate::text::push_char(out, 'n');
        } else if c == '\r' {
            crate::text::push_char(out, '\\');
            crate::text::push_char(out, 'r');
        } else if c == '\t' {
            crate::text::push_char(out, '\\');
            crate::text::push_char(out, 't');
        } else if (c as u32) < 32 {
            let code = c as u32;
            crate::text::push_char(out, '\\');
            crate::text::push_char(out, 'u');
            crate::text::push_char(out, '0');
            crate::text::push_char(out, '0');
            crate::text::push_char(out, crate::text::digit_to_char(code / 16));
            crate::text::push_char(out, hex_digit_exec(code % 16));
        } else {
            crate::text::push_char(out, c);
        }
        proof {
            assert(out@ =~= pre + json_escape_char(s@[i as int]));
            lemma_flat_map_take_step(s@, i as int);
            assert(out@ =~= old(out)@ + seq!['"'] + s@.take(i + 1).flat_map(
                |c: char| json_escape_char(c),
            ));
        }
        i = i + 1;
    }
    crate::text::push_char(out, '"');
    proof {
        assert(s@.take(n as int) =~= s@);
        assert(out@ =~= old(out)@ + json_quote(s@));
    }
}

proof fn lemma_flat_map_take_step(s: Seq<char>, i: int)
    requires
        0 <= i < s.len(),
    ensures
        s.take(i + 1).flat_map(|c: char| json_escape_char(c)) == s.take(i).flat_map(
            |c: char| json_escape_char(c),
        ) + json_escape_char(s[i]),
{
    let f = |c: char| json_escape_char(c);
    s.lemma_flat_map_take_append(f, i);
}

/// One member of a JSON object: the quoted name, a colon, the quoted value.
pub open spec fn json_member(p: (Seq<char>, Seq<char>)) -> Seq<char> {
    json_quote(p.0) + seq![':'] + json_quote(p.1)
}

/// The members of a JSON object, comma-separated, in order.
pub open spec fn json_members(pairs: Seq<(Seq<char>, Seq<char>)>) -> Seq<char>
    decreases pairs.len(),
{
    if pairs.len() == 0 {
        Seq::empty()
    } else if pairs.len() == 1 {
        json_member(pairs[0])
    } else {
        json_members(pairs.drop_last()) + seq![','] + json_member(pairs.last())
    }
}

/// Appends the members of a JSON object to `out`.
fn append_json_members(out: &mut String, pairs: &Vec<(String, String)>)
    ensures
        final(out)@ == old(out)@ + json_members(crate::context::pairs_view(pairs@)),
{
    let n = pairs.len();
    let mut i: usize = 0;
    proof {
        assert(crate::context::pairs_view(pairs@).take(0) =~= Seq::<(Seq<char>, Seq<char>)>::empty());
        assert(out@ =~= old(out)@ + json_members(crate::context::pairs_view(pairs@).take(0)));
    }
    while i < n
        invariant
            n == pairs@.len(),
            i <= n,
            out@ == old(out)@ + json_members(crate::context::pairs_view(pairs@).take(i as int)),
        decreases n - i,
    {
        let ghost pv = crate::context::pairs_view(pairs@);
        let ghost pre = out@;
        if i > 0 {
            crate::text::push_char(out, ',');
        }
        append_json_quoted(out, pairs[i].0.as_str());
        crate::text::push_char(out, ':');
        append_json_quoted(out, pairs[i].1.as_str());
        proof {
            assert(pv[i as int] == (pairs@[i as int].0@, pairs@[i as int].1@));
            assert(pv.take(i + 1).drop_last() =~= pv.take(i as int));
            assert(pv.take(i + 1).last() == pv[i as int]);
            if i == 0 {
                assert(out@ =~= pre + json_member(pv[0]));
                assert(json_members(pv.take(1)) == json_member(pv.take(1)[0]));
                assert(pv.take(1)[0] == pv[0]);
                assert(out@ =~= old(out)@ + json_members(pv.take(i + 1)));
            } else {
                assert(out@ =~= pre + seq![','] + json_member(pv[i as int]));
                assert(out@ =~= old(out)@ + json_members(pv.take(i + 1)));
            }
        }
        i = i + 1;
    }
    proof {
        assert(crate::context::pairs_view(pairs@).take(n as int) =~= crate::context::pairs_view(
            pairs@,
        ));
    }
}

/// The `body` part of the synthesized view: the body's own JSON text when
/// the bytes read as JSON, else an empty object.
pub open spec fn body_json_part(body: Seq<u8>) -> Seq<char> {
    if json_valid(body) && vstd::utf8::valid_utf8(body) {
        vstd::utf8::decode_utf8(body)
    } else {
        "{}"@
    }
}

/// An optional text as JSON: a quoted string, or `null`.
pub open spec fn null_or_quoted(v: Option<Seq<char>>) -> Seq<char> {
    match v {
        Some(s) => json_quote(s),
        None => "null"@,
    }
}

/// The synthesized JSON view of a request that condition filters read:
/// the body (or `{}`), the flattened context, and the request's headers
/// and URI parts.
pub open spec fn condition_input_spec(
    body: Seq<u8>,
    env: Seq<(Seq<char>, Seq<char>)>,
    headers: Seq<(Seq<char>, Seq<char>)>,
    uri_full: Seq<char>,
    host: Option<Seq<char>>,
    path: Seq<char>,
    query: Option<Seq<char>>,
) -> Seq<char> {
    "{\"body\":"@ + body_json_part(body) + ",\"env\":{"@ + json_members(env)
        + "},\"request\":{\"headers\":{"@ + json_members(headers) + "},\"uri\":{\"full\":"@
        + json_quote(uri_full) + ",\"host\":"@ + null_or_quoted(host) + ",\"path\":"@
        + json_quote(path) + ",\"query\":"@ + null_or_quoted(query) + "}}}"@
}

/// Builds the synthesized JSON view of a request at the given scope.
pub fn condition_input_text(ctx: &Context, req: &crate::handler::InboundRequest) -> (r: String)
    ensures
        r@ == condition_input_spec(
            req@.body,
            flatten_frames(ctx@),
            req@.headers,
            req@.uri_full,
            req@.host,
            req@.path,
            req@.query,
        ),
{
    let mut out = String::from_str("{\"body\":");
    if json_valid_bytes(&req.body) {
        match bytes_to_string(&req.body) {
            Some(s) => {
                out.append(s.as_str());
            },
            None => {
                out.append("{}");
            },
        }
    } else {
        out.append("{}");
    }
    out.append(",\"env\":{");
    let env = ctx.flat_entries();
    append_json_members(&mut out, &env);
    out.append("},\"request\":{\"headers\":{");
    append_json_members(&mut out, &req.headers);
    out.append("},\"uri\":{\"full\":");
    append_json_quoted(&mut out, req.uri_full.as_str());
    out.append(",\"host\":");
    match &req.host {
        Some(h) => append_json_quoted(&mut out, h.as_str()),
        None => out.append("null"),
    }
    out.append(",\"path\":");
    append_json_quoted(&mut out, req.path.as_str());
    out.append(",\"query\":");
    match &req.query {
        Some(q) => append_json_quoted(&mut out, q.as_str()),
        None => out.append("null"),
    }
    out.append("}}}");
    out
}

impl TargetConfig {
    /// Whether this target's filter condition is satisfied by the request:
    /// the filter runs on the synthesized JSON view.  A target without a
    /// filter condition is not satisfied here.
    pub fn check_condition(
        &self,
        ctx: &Context,
        req: &crate::handler::InboundRequest,
    ) -> bool {
        let input = condition_input_text(ctx, req);
        match &self.condition {
            Some(TargetConditionConfig::Filter(f)) => f.run(input.as_str()),
            _ => false,
        }
    }
}


} // verus!
