//! Listener configuration: the bind address, the accept timeout, the
//! allowed methods, the listener-level header transforms, the target list,
//! the response policy and the strategy.

use vstd::prelude::*;

use crate::config::headers::{transforms_view, HeaderTransform, TransformView};
use crate::config::response::{ResponseConfig, ResponseConfigView};
use crate::config::strategy::{strategy_requirements, ResponseStrategy};
use crate::config::target::{targets_valid, targets_view, TargetConfig, TlsConfig, TlsView};
use crate::errors::HttpDragonflyError;
use crate::template::index_of;
use crate::text::{
    dec_str, digit_val, int_parse_error_message, is_digit, lower_chars, parse_u16, parse_u16_spec,
    trim, trim_spec, u16_to_dec, u8_to_dec,
};

verus! {

// ---------------------------------------------------------------------
// Splitting on a separator.
// ---------------------------------------------------------------------

/// The pieces of `s` between occurrences of `c`.
pub open spec fn split_char(s: Seq<char>, c: char) -> Seq<Seq<char>>
    decreases s.len(),
{
    let j = index_of(s, c);
    if j < 0 || j >= s.len() {
        seq![s]
    } else {
        seq![s.take(j)] + split_char(s.skip(j + 1), c)
    }
}

// ---------------------------------------------------------------------
// The bind address.
// ---------------------------------------------------------------------

/// An IPv4 address and a port to listen on.
#[derive(PartialEq, Eq, Structural, Clone, Copy, Debug)]
pub struct ListenOn {
    pub ip0: u8,
    pub ip1: u8,
    pub ip2: u8,
    pub ip3: u8,
    pub port: u16,
}

/// The text of a bind address: `a.b.c.d:port`.
pub open spec fn listen_on_text(l: ListenOn) -> Seq<char> {
    dec_str(l.ip0 as int) + seq!['.'] + dec_str(l.ip1 as int) + seq!['.'] + dec_str(l.ip2 as int)
        + seq!['.'] + dec_str(l.ip3 as int) + seq![':'] + dec_str(l.port as int)
}

/// The value of decimal digits, most significant first.
pub open spec fn digits_value(s: Seq<char>) -> int
    decreases s.len(),
{
    if s.len() == 0 {
        0
    } else {
        digits_value(s.drop_last()) * 10 + digit_val(s.last())
    }
}

/// Whether every character is a decimal digit.
pub open spec fn all_digits(s: Seq<char>) -> bool
    decreases s.len(),
{
    s.len() == 0 || (is_digit(s.last()) && all_digits(s.drop_last()))
}

/// An IPv4 octet as text: one to three digits, no leading zero, at most
/// 255.
pub open spec fn octet_ok(s: Seq<char>) -> bool {
    &&& 1 <= s.len() <= 3
    &&& all_digits(s)
    &&& (s.len() == 1 || s[0] != '0')
    &&& digits_value(s) <= 255
}

/// Whether a text is a dotted-quad IPv4 address.
pub open spec fn ipv4_valid(s: Seq<char>) -> bool {
    let parts = split_char(s, '.');
    parts.len() == 4 && octet_ok(parts[0]) && octet_ok(parts[1]) && octet_ok(parts[2]) && octet_ok(
        parts[3],
    )
}

/// The address value of a dotted-quad text.
pub open spec fn ipv4_value(s: Seq<char>) -> (u8, u8, u8, u8) {
    let parts = split_char(s, '.');
    (
        digits_value(parts[0]) as u8,
        digits_value(parts[1]) as u8,
        digits_value(parts[2]) as u8,
        digits_value(parts[3]) as u8,
    )
}

/// What building a bind address from parts yields: a port of zero is
/// refused.
pub open spec fn listen_on_new_spec(ip: (u8, u8, u8, u8), port: u16) -> Result<ListenOn, Seq<char>> {
    if port > 0 {
        Ok(ListenOn { ip0: ip.0, ip1: ip.1, ip2: ip.2, ip3: ip.3, port })
    } else {
        Err(
            "port `"@ + dec_str(port as int)
                + "` is invalid, should be between 1 and 65535"@,
        )
    }
}

/// What parsing a bind address text yields, message for message: a lone
/// port listens on every interface; `IP:PORT` binds the address, with ``
/// and `*` meaning every interface; anything else is refused.
pub open spec fn listen_on_from_str_spec(v: Seq<char>) -> Result<ListenOn, Seq<char>> {
    let t = trim_spec(v);
    let parts = split_char(t, ':');
    if parts.len() == 1 {
        match parse_u16_spec(parts[0]) {
            Ok(port) => listen_on_new_spec((0, 0, 0, 0), port),
            Err(e) => Err(
                "invalid port value `"@ + parts[0] + "`: "@ + int_parse_error_message(e),
            ),
        }
    } else if parts.len() == 2 {
        match parse_u16_spec(parts[1]) {
            Ok(port) => {
                if parts[0].len() == 0 || parts[0] == "*"@ {
                    listen_on_new_spec((0, 0, 0, 0), port)
                } else if ipv4_valid(parts[0]) {
                    listen_on_new_spec(ipv4_value(parts[0]), port)
                } else {
                    Err("IP address isn't valid"@)
                }
            },
            Err(e) => Err(
                "invalid port value `"@ + parts[1] + "`: "@ + int_parse_error_message(e),
            ),
        }
    } else {
        Err("invalid `listen on` token, should be in form IP:PORT"@)
    }
}

impl ListenOn {
    /// Builds a bind address; a port of zero is refused.
    pub fn new(ip: (u8, u8, u8, u8), port: u16) -> (r: Result<ListenOn, String>)
        ensures
            (match r {
                Ok(l) => Ok::<ListenOn, Seq<char>>(l),
                Err(ref e) => Err(e@),
            }) == listen_on_new_spec(ip, port),
    {
        if port > 0 {
            Ok(ListenOn { ip0: ip.0, ip1: ip.1, ip2: ip.2, ip3: ip.3, port })
        } else {
            let mut e = String::from_str("port `");
            e.append(u16_to_dec(port).as_str());
            e.append("` is invalid, should be between 1 and 65535");
            Err(e)
        }
    }

    /// The text of this bind address.
    pub fn as_text(&self) -> (r: String)
        ensures
            r@ == listen_on_text(*self),
    {
        let mut s = u8_to_dec(self.ip0);
        crate::text::push_char(&mut s, '.');
        s.append(u8_to_dec(self.ip1).as_str());
        crate::text::push_char(&mut s, '.');
        s.append(u8_to_dec(self.ip2).as_str());
        crate::text::push_char(&mut s, '.');
        s.append(u8_to_dec(self.ip3).as_str());
        crate::text::push_char(&mut s, ':');
        s.append(u16_to_dec(self.port).as_str());
        proof {
            assert(s@ =~= listen_on_text(*self));
        }
        s
    }

    /// Reads one octet of a dotted quad.
    fn parse_octet(s: &str) -> (r: Option<u8>)
        ensures
            r is Some <==> octet_ok(s@),
            r matches Some(v) ==> v == digits_value(s@) as u8,
    {
        let n = s.unicode_len();
        if n == 0 || n > 3 {
            return None;
        }
        if n > 1 && s.get_char(0) == '0' {
            proof {
                lemma_all_digits_value(s@);
            }
            return None;
        }
        let mut acc: u32 = 0;
        let mut i: usize = 0;
        proof {
            assert(s@.take(0) =~= Seq::<char>::empty());
        }
        while i < n
            invariant
                n == s@.len(),
                n <= 3,
                i <= n,
                acc == digits_value(s@.take(i as int)),
                all_digits(s@.take(i as int)),
                acc < 1000,
            decreases n - i,
        {
            proof {
                assert(s@.take(i + 1).drop_last() =~= s@.take(i as int));
                assert(s@.take(i + 1).last() == s@[i as int]);
                lemma_digits_value_small(s@.take(i as int));
            }
            match crate::text::digit_of_char(s.get_char(i)) {
                None => {
                    proof {
                        lemma_not_all_digits(s@, i as int);
                    }
                    return None;
                },
                Some(d) => {
                    acc = acc * 10 + d;
                    proof {
                        lemma_digits_value_small(s@.take(i + 1));
                    }
                },
            }
            i = i + 1;
        }
        proof {
            assert(s@.take(n as int) =~= s@);
        }
        if acc > 255 {
            return None;
        }
        Some(acc as u8)
    }

    /// Reads a dotted-quad IPv4 address, as configuration texts write one.
    pub fn parse_ip_address(ip: &str) -> (r: Result<(u8, u8, u8, u8), String>)
        ensures
            r is Ok <==> ipv4_valid(ip@),
            r matches Ok(v) ==> v == ipv4_value(ip@),
            r matches Err(e) ==> e@ == "IP address isn't valid"@,
    {
        let n = ip.unicode_len();
        let j1 = crate::template::find_char_from(ip, 0, '.');
        proof {
            assert(ip@.skip(0) =~= ip@);
            lemma_split_head(ip@, '.', j1 as int);
        }
        if j1 >= n {
            proof {
                assert(split_char(ip@, '.').len() == 1);
            }
            return Err(String::from_str("IP address isn't valid"));
        }
        let o1 = ListenOn::parse_octet(ip.substring_char(0, j1));
        let j2 = crate::template::find_char_from(ip, j1 + 1, '.');
        let ghost rest1 = ip@.skip(j1 + 1);
        proof {
            lemma_split_head(rest1, '.', (j2 - (j1 + 1)) as int);
        }
        if j2 >= n {
            proof {
                assert(split_char(ip@, '.').len() == 2);
            }
            return Err(String::from_str("IP address isn't valid"));
        }
        let o2 = ListenOn::parse_octet(ip.substring_char(j1 + 1, j2));
        let j3 = crate::template::find_char_from(ip, j2 + 1, '.');
        let ghost rest2 = rest1.skip((j2 - (j1 + 1)) + 1);
        proof {
            assert(rest2 =~= ip@.skip(j2 + 1));
            lemma_split_head(rest2, '.', (j3 - (j2 + 1)) as int);
        }
        if j3 >= n {
            proof {
                assert(split_char(ip@, '.').len() == 3);
            }
            return Err(String::from_str("IP address isn't valid"));
        }
        let o3 = ListenOn::parse_octet(ip.substring_char(j2 + 1, j3));
        let j4 = crate::template::find_char_from(ip, j3 + 1, '.');
        let ghost rest3 = rest2.skip((j3 - (j2 + 1)) + 1);
        proof {
            assert(rest3 =~= ip@.skip(j3 + 1));
            lemma_split_head(rest3, '.', (j4 - (j3 + 1)) as int);
        }
        if j4 < n {
            proof {
                assert(split_char(ip@, '.').len() >= 4 + split_char(
                    rest3.skip((j4 - (j3 + 1)) + 1),
                    '.',
                ).len() - 1);
                assert(split_char(rest3.skip((j4 - (j3 + 1)) + 1), '.').len() >= 1);
            }
            return Err(String::from_str("IP address isn't valid"));
        }
        let o4 = ListenOn::parse_octet(ip.substring_char(j3 + 1, n));
        proof {
            let parts = split_char(ip@, '.');
            assert(parts.len() == 4);
            assert(parts[0] =~= ip@.take(j1 as int));
            assert(parts[1] =~= rest1.take((j2 - (j1 + 1)) as int));
            assert(parts[1] =~= ip@.subrange(j1 + 1, j2 as int));
            assert(parts[2] =~= rest2.take((j3 - (j2 + 1)) as int));
            assert(parts[2] =~= ip@.subrange(j2 + 1, j3 as int));
            assert(parts[3] =~= rest3);
            assert(parts[3] =~= ip@.subrange(j3 + 1, n as int));
        }
        match (o1, o2, o3, o4) {
            (Some(a), Some(b), Some(c), Some(d)) => Ok(((a, b, c, d))),
            _ => Err(String::from_str("IP address isn't valid")),
        }
    }

    /// Reads a bind address text: a lone port, or `IP:PORT` where the IP
    /// may be empty or `*` for every interface.
    pub fn from_str(v: &str) -> (r: Result<ListenOn, String>)
        ensures
            (match r {
                Ok(l) => Ok::<ListenOn, Seq<char>>(l),
                Err(ref e) => Err(e@),
            }) == listen_on_from_str_spec(v@),
    {
        let trimmed = trim(v);
        let t = trimmed.as_str();
        let n = t.unicode_len();
        let j1 = crate::template::find_char_from(t, 0, ':');
        proof {
            assert(t@.skip(0) =~= t@);
            lemma_split_head(t@, ':', j1 as int);
        }
        if j1 >= n {
            // a lone port
            proof {
                assert(split_char(t@, ':').len() == 1);
                assert(split_char(t@, ':')[0] == t@);
            }
            match parse_u16(t) {
                Ok(port) => ListenOn::new((0, 0, 0, 0), port),
                Err(e) => {
                    let mut msg = String::from_str("invalid port value `");
                    msg.append(t);
                    msg.append("`: ");
                    msg.append(e.message().as_str());
                    Err(msg)
                },
            }
        } else {
            let j2 = crate::template::find_char_from(t, j1 + 1, ':');
            let ghost rest1 = t@.skip(j1 + 1);
            proof {
                lemma_split_head(rest1, ':', (j2 - (j1 + 1)) as int);
            }
            if j2 < n {
                proof {
                    assert(split_char(t@, ':').len() >= 2 + split_char(
                        rest1.skip((j2 - (j1 + 1)) + 1),
                        ':',
                    ).len() - 1);
                    assert(split_char(rest1.skip((j2 - (j1 + 1)) + 1), ':').len() >= 1);
                }
                return Err(
                    String::from_str("invalid `listen on` token, should be in form IP:PORT"),
                );
            }
            proof {
                let parts = split_char(t@, ':');
                assert(parts.len() == 2);
                assert(parts[0] =~= t@.take(j1 as int));
                assert(parts[1] =~= rest1);
            }
            let ip_part = t.substring_char(0, j1);
            let port_part = t.substring_char(j1 + 1, n);
            match parse_u16(port_part) {
                Err(e) => {
                    let mut msg = String::from_str("invalid port value `");
                    msg.append(port_part);
                    msg.append("`: ");
                    msg.append(e.message().as_str());
                    Err(msg)
                },
                Ok(port) => {
                    if ip_part.unicode_len() == 0 || crate::text::str_eq(ip_part, "*") {
                        ListenOn::new((0, 0, 0, 0), port)
                    } else {
                        match ListenOn::parse_ip_address(ip_part) {
                            Ok(ip) => ListenOn::new(ip, port),
                            Err(e) => Err(e),
                        }
                    }
                },
            }
        }
    }
}

impl Default for ListenOn {
    /// Every interface, port 8080.
    fn default() -> (r: ListenOn)
        ensures
            r == (ListenOn { ip0: 0u8, ip1: 0u8, ip2: 0u8, ip3: 0u8, port: 8080u16 }),
    {
        ListenOn { ip0: 0, ip1: 0, ip2: 0, ip3: 0, port: 8080 }
    }
}

/// One `split_char` step: when the separator's first position in `s` is
/// `j`, the first piece is `s.take(j)`; when it is absent the only piece
/// is `s` itself.
proof fn lemma_split_head(s: Seq<char>, c: char, j: int)
    requires
        index_of(s, c) == j,
        0 <= j <= s.len(),
        j < s.len() ==> s[j] == c,
    ensures
        j >= s.len() ==> split_char(s, c) == seq![s],
        j < s.len() ==> split_char(s, c) == seq![s.take(j)] + split_char(s.skip(j + 1), c),
        j < s.len() ==> split_char(s, c).len() == 1 + split_char(s.skip(j + 1), c).len(),
        split_char(s, c).len() >= 1,
        j < s.len() ==> split_char(s, c)[0] == s.take(j),
        j < s.len() ==> forall|m: int|
            1 <= m < split_char(s, c).len() ==> split_char(s, c)[m] == split_char(
                s.skip(j + 1),
                c,
            )[m - 1],
{
    crate::template::lemma_index_of_props(s, c);
}

proof fn lemma_not_all_digits(s: Seq<char>, i: int)
    requires
        0 <= i < s.len(),
        !is_digit(s[i]),
    ensures
        !all_digits(s),
    decreases s.len(),
{
    if i < s.len() - 1 {
        lemma_not_all_digits(s.drop_last(), i);
    }
}

proof fn lemma_digits_value_small(s: Seq<char>)
    requires
        all_digits(s),
        s.len() <= 3,
    ensures
        0 <= digits_value(s) < 1000,
        s.len() <= 2 ==> digits_value(s) < 100,
        s.len() <= 1 ==> digits_value(s) < 10,
    decreases s.len(),
{
    if s.len() > 0 {
        lemma_digits_value_small(s.drop_last());
    }
}

proof fn lemma_all_digits_value(s: Seq<char>)
    ensures
        all_digits(s) ==> digits_value(s) >= 0,
    decreases s.len(),
{
    if s.len() > 0 {
        lemma_all_digits_value(s.drop_last());
    }
}

// ---------------------------------------------------------------------
// Methods.
// ---------------------------------------------------------------------

/// The HTTP methods a listener can restrict itself to.
#[derive(PartialEq, Eq, Structural, Clone, Copy, Debug)]
pub enum HttpMethod {
    Get,
    Post,
    Put,
    Patch,
    Delete,
    Options,
    Head,
}

/// The method a text names, without regard to ASCII case.
pub open spec fn method_from_str_spec(s: Seq<char>) -> Option<HttpMethod> {
    let l = lower_chars(s);
    if l == "get"@ {
        Some(HttpMethod::Get)
    } else if l == "post"@ {
        Some(HttpMethod::Post)
    } else if l == "put"@ {
        Some(HttpMethod::Put)
    } else if l == "patch"@ {
        Some(HttpMethod::Patch)
    } else if l == "delete"@ {
        Some(HttpMethod::Delete)
    } else if l == "options"@ {
        Some(HttpMethod::Options)
    } else if l == "head"@ {
        Some(HttpMethod::Head)
    } else {
        None
    }
}

impl HttpMethod {
    /// Reads a method name, without regard to ASCII case.
    pub fn from_str(s: &str) -> (r: Option<HttpMethod>)
        ensures
            r == method_from_str_spec(s@),
    {
        proof {
            reveal_strlit("get");
            reveal_strlit("post");
            reveal_strlit("put");
            reveal_strlit("patch");
            reveal_strlit("delete");
            reveal_strlit("options");
            reveal_strlit("head");
            assert(lower_chars("get"@) =~= "get"@);
            assert(lower_chars("post"@) =~= "post"@);
            assert(lower_chars("put"@) =~= "put"@);
            assert(lower_chars("patch"@) =~= "patch"@);
            assert(lower_chars("delete"@) =~= "delete"@);
            assert(lower_chars("options"@) =~= "options"@);
            assert(lower_chars("head"@) =~= "head"@);
        }
        if crate::text::eq_ignore_case(s, "get") {
            Some(HttpMethod::Get)
        } else if crate::text::eq_ignore_case(s, "post") {
            Some(HttpMethod::Post)
        } else if crate::text::eq_ignore_case(s, "put") {
            Some(HttpMethod::Put)
        } else if crate::text::eq_ignore_case(s, "patch") {
            Some(HttpMethod::Patch)
        } else if crate::text::eq_ignore_case(s, "delete") {
            Some(HttpMethod::Delete)
        } else if crate::text::eq_ignore_case(s, "options") {
            Some(HttpMethod::Options)
        } else if crate::text::eq_ignore_case(s, "head") {
            Some(HttpMethod::Head)
        } else {
            None
        }
    }
}

/// Whether the list holds the method.
pub open spec fn has_method(ms: Seq<HttpMethod>, m: HttpMethod) -> bool
    decreases ms.len(),
{
    if ms.len() == 0 {
        false
    } else {
        ms.last() == m || has_method(ms.drop_last(), m)
    }
}

/// Whether a method text is admitted: an unset restriction admits all;
/// else the text must name one of the listed methods.
pub open spec fn method_allowed_spec(ms: Option<Seq<HttpMethod>>, s: Seq<char>) -> bool {
    match ms {
        None => true,
        Some(list) => match method_from_str_spec(s) {
            Some(m) => has_method(list, m),
            None => false,
        },
    }
}

// ---------------------------------------------------------------------
// The listener.
// ---------------------------------------------------------------------

/// One configured listener.
pub struct ListenerConfig {
    name: Option<String>,
    listen_on: ListenOn,
    timeout_ms: u64,
    strategy: ResponseStrategy,
    headers: Option<Vec<HeaderTransform>>,
    methods: Option<Vec<HttpMethod>>,
    targets: Vec<TargetConfig>,
    response: ResponseConfig,
    tls: TlsConfig,
}

/// The specification-level form of a listener.
pub struct ListenerView {
    pub name: Option<Seq<char>>,
    pub listen_on: ListenOn,
    pub timeout_ms: u64,
    pub strategy: ResponseStrategy,
    pub headers: Option<Seq<TransformView>>,
    pub methods: Option<Seq<HttpMethod>>,
    pub targets: Seq<crate::config::target::TargetView>,
    pub response: ResponseConfigView,
    pub tls: TlsView,
}

impl View for ListenerConfig {
    type V = ListenerView;

    closed spec fn view(&self) -> ListenerView {
        ListenerView {
            name: match self.name {
                Some(ref n) => Some(n@),
                None => None,
            },
            listen_on: self.listen_on,
            timeout_ms: self.timeout_ms,
            strategy: self.strategy,
            headers: match self.headers {
                Some(ref ts) => Some(transforms_view(ts@)),
                None => None,
            },
            methods: match self.methods {
                Some(ref ms) => Some(ms@),
                None => None,
            },
            targets: targets_view(self.targets@),
            response: self.response@,
            tls: self.tls@,
        }
    }
}

/// The effective name of a listener: the configured one, or
/// `LISTENER-<address>`.
pub open spec fn listener_name_spec(l: ListenerView) -> Seq<char> {
    match l.name {
        Some(n) => n,
        None => "LISTENER-"@ + listen_on_text(l.listen_on),
    }
}

/// A valid listener: its targets are valid and its strategy's demands
/// hold.
pub open spec fn listener_valid(l: ListenerView) -> bool {
    &&& targets_valid(l.targets)
    &&& strategy_requirements(l.strategy, l.targets, l.response.target_selector)
}

impl ListenerConfig {
    #[allow(clippy::too_many_arguments)]
    pub fn new(
        name: Option<String>,
        listen_on: ListenOn,
        timeout_ms: u64,
        strategy: ResponseStrategy,
        headers: Option<Vec<HeaderTransform>>,
        methods: Option<Vec<HttpMethod>>,
        targets: Vec<TargetConfig>,
        response: ResponseConfig,
        tls: TlsConfig,
    ) -> (r: ListenerConfig)
        ensures
            r@.name == (match name {
                Some(ref n) => Some(n@),
                None => None::<Seq<char>>,
            }),
            r@.listen_on == listen_on,
            r@.timeout_ms == timeout_ms,
            r@.strategy == strategy,
            r@.headers == (match headers {
                Some(ref ts) => Some(transforms_view(ts@)),
                None => None::<Seq<TransformView>>,
            }),
            r@.methods == (match methods {
                Some(ref ms) => Some(ms@),
                None => None::<Seq<HttpMethod>>,
            }),
            r@.targets == targets_view(targets@),
            r@.response == response@,
            r@.tls == tls@,
    {
        ListenerConfig {
            name,
            listen_on,
            timeout_ms,
            strategy,
            headers,
            methods,
            targets,
            response,
            tls,
        }
    }

    /// The effective name: the configured one, or `LISTENER-<address>`.
    pub fn name(&self) -> (r: String)
        ensures
            r@ == listener_name_spec(self@),
    {
        match &self.name {
            Some(n) => n.clone(),
            None => {
                let mut s = String::from_str("LISTENER-");
                s.append(self.listen_on.as_text().as_str());
                s
            },
        }
    }

    /// The configured name of this listener, as `id` reads in logs.
    pub fn id(&self) -> (r: String)
        ensures
            r@ == listener_name_spec(self@),
    {
        self.name()
    }

    /// The bind address.
    pub fn socket(&self) -> (r: ListenOn)
        ensures
            r == self@.listen_on,
    {
        self.listen_on
    }

    /// The bind address as text.
    pub fn on(&self) -> (r: String)
        ensures
            r@ == listen_on_text(self@.listen_on),
    {
        self.listen_on.as_text()
    }

    /// Whether a method text is admitted by this listener.
    pub fn is_method_allowed(&self, method: &str) -> (r: bool)
        ensures
            r == method_allowed_spec(self@.methods, method@),
    {
        match &self.methods {
            None => true,
            Some(list) => {
                match HttpMethod::from_str(method) {
                    None => false,
                    Some(m) => {
                        let n = list.len();
                        let mut i: usize = 0;
                        proof {
                            assert(!has_method(list@.take(0), m));
                        }
                        while i < n
                            invariant
                                n == list@.len(),
                                i <= n,
                                self@.methods == Some(list@),
                                method_from_str_spec(method@) == Some(m),
                                !has_method(list@.take(i as int), m),
                            decreases n - i,
                        {
                            proof {
                                assert(list@.take(i + 1).drop_last() =~= list@.take(i as int));
                                assert(list@.take(i + 1).last() == list@[i as int]);
                            }
                            if list[i] == m {
                                proof {
                                    lemma_has_method_index(list@, i as int, m);
                                }
                                return true;
                            }
                            i = i + 1;
                        }
                        proof {
                            assert(list@.take(n as int) =~= list@);
                        }
                        false
                    },
                }
            },
        }
    }

    /// The header-read deadline, in milliseconds.
    pub fn timeout(&self) -> (r: u64)
        ensures
            r == self@.timeout_ms,
    {
        self.timeout_ms
    }

    pub fn headers(&self) -> (r: &Option<Vec<HeaderTransform>>)
        ensures
            self@.headers == (match r {
                Some(ts) => Some(transforms_view(ts@)),
                None => None::<Seq<TransformView>>,
            }),
    {
        &self.headers
    }

    pub fn targets(&self) -> (r: &Vec<TargetConfig>)
        ensures
            targets_view(r@) == self@.targets,
    {
        &self.targets
    }

    pub fn response(&self) -> (r: &ResponseConfig)
        ensures
            r@ == self@.response,
    {
        &self.response
    }

    pub fn strategy(&self) -> (r: &ResponseStrategy)
        ensures
            *r == self@.strategy,
    {
        &self.strategy
    }

    /// The listener-level TLS defaults.
    pub fn tls(&self) -> (r: &TlsConfig)
        ensures
            r@ == self@.tls,
    {
        &self.tls
    }

    /// A valid listener: valid targets, and the strategy's demands met.
    pub fn validate(&self) -> (r: Result<(), HttpDragonflyError>)
        ensures
            r is Ok <==> listener_valid(self@),
            r matches Err(e) ==> e is ValidateConfig,
    {
        match crate::config::target::validate_targets(&self.targets) {
            Err(e) => Err(e),
            Ok(()) => {
                match self.strategy.validate(&self.targets, self.response.target_selector()) {
                    Err(e) => Err(e),
                    Ok(()) => Ok(()),
                }
            },
        }
    }
}

proof fn lemma_has_method_index(ms: Seq<HttpMethod>, i: int, m: HttpMethod)
    requires
        0 <= i < ms.len(),
        ms[i] == m,
    ensures
        has_method(ms, m),
    decreases ms.len(),
{
    if i < ms.len() - 1 {
        lemma_has_method_index(ms.drop_last(), i, m);
    }
}


} // verus!
