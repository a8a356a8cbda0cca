//! Retargeting an inbound request at a provider: the URL it goes to and the
//! headers it carries.
//!
//! Headers are bytes here, name and value, as they are on the wire.

use vstd::prelude::*;
use vstd::string::*;
use vstd::utf8::encode_utf8;
use crate::provider::Provider;
use crate::text::{decimal, decimal_digits};

verus! {

/// One header line.
#[derive(Clone, Debug, PartialEq, Eq)]
pub struct Header {
    pub name: Vec<u8>,
    pub value: Vec<u8>,
}

/// A header as a value: name and value.
pub type HeaderView = (Seq<u8>, Seq<u8>);

/// The headers of a request as values.
pub open spec fn header_views(headers: Seq<Header>) -> Seq<HeaderView> {
    Seq::new(headers.len(), |i: int| (headers[i].name@, headers[i].value@))
}

/// The request that goes upstream: where to, and with which headers. Method
/// and body are those of the inbound request.
#[derive(Clone, Debug, PartialEq, Eq)]
pub struct Outbound {
    pub target: String,
    pub headers: Vec<Header>,
}

/// Why no request could be made for a provider.
#[derive(Clone, Copy, Debug, PartialEq, Eq)]
pub enum ForwardError {
    /// The base URL of the provider and the path do not make a URL.
    InvalidTarget,
}

/// An ASCII letter in lower case; any other byte as it is.
pub open spec fn lower(b: u8) -> u8 {
    if 65 <= b <= 90 {
        (b + 32) as u8
    } else {
        b
    }
}

/// Whether `name` is `word`, which is in lower case, but for the case of
/// ASCII letters.
pub open spec fn is_word(name: Seq<u8>, word: Seq<u8>) -> bool {
    &&& name.len() == word.len()
    &&& forall|i: int| 0 <= i < name.len() ==> lower(name[i]) == word[i]
}

/// `host`, in ASCII.
pub open spec fn host_word() -> Seq<u8> {
    seq![104u8, 111u8, 115u8, 116u8]
}

/// `authorization`, in ASCII.
pub open spec fn authorization_word() -> Seq<u8> {
    seq![
        97u8,
        117u8,
        116u8,
        104u8,
        111u8,
        114u8,
        105u8,
        122u8,
        97u8,
        116u8,
        105u8,
        111u8,
        110u8,
    ]
}

/// `Bearer ` with its space, in ASCII.
pub open spec fn bearer_prefix() -> Seq<u8> {
    seq![66u8, 101u8, 97u8, 114u8, 101u8, 114u8, 32u8]
}

/// Whether a header of this name is one that the proxy sets itself, so that
/// the inbound one is not passed on.
pub open spec fn is_reserved(name: Seq<u8>) -> bool {
    is_word(name, host_word()) || is_word(name, authorization_word())
}

/// The inbound headers that are passed on, in their order.
pub open spec fn passed_on(headers: Seq<HeaderView>) -> Seq<HeaderView>
    decreases headers.len(),
{
    if headers.len() == 0 {
        Seq::empty()
    } else if is_reserved(headers.last().0) {
        passed_on(headers.drop_last())
    } else {
        passed_on(headers.drop_last()).push(headers.last())
    }
}

/// The value of the `Host` header for a target with this host and port.
pub open spec fn host_value(host: Seq<u8>, port: Option<u16>) -> Seq<u8> {
    match port {
        Some(p) => host + seq![58u8] + decimal(p as nat),
        None => host,
    }
}

/// The headers that go upstream: those passed on, then `authorization` with
/// the provider's token as bearer, then `host` where the target has one.
pub open spec fn outbound_headers(
    inbound: Seq<HeaderView>,
    token: Seq<u8>,
    host: Option<Seq<u8>>,
    port: Option<u16>,
) -> Seq<HeaderView> {
    let with_auth = passed_on(inbound).push((authorization_word(), bearer_prefix() + token));
    match host {
        Some(h) => with_auth.push((host_word(), host_value(h, port))),
        None => with_auth,
    }
}

/// The URL that a request with this path and query goes to at a provider:
/// the base URL with the path and query behind it, or with `/` where the
/// inbound request has neither.
pub open spec fn target_text(base_url: Seq<char>, path_and_query: Option<Seq<char>>) -> Seq<char> {
    match path_and_query {
        Some(p) => base_url + p,
        None => base_url + seq!['/'],
    }
}

/// A path and query as a value.
pub open spec fn text_view(text: Option<&str>) -> Option<Seq<char>> {
    match text {
        Some(t) => Some(t@),
        None => None,
    }
}

/// Whether the `http` crate takes a text for a URL.
pub uninterp spec fn uri_accepts(url: Seq<char>) -> bool;

/// The host that the `http` crate finds in a URL, if it finds one.
pub uninterp spec fn uri_host(url: Seq<char>) -> Option<Seq<char>>;

/// The port that the `http` crate finds in a URL, if it finds one.
pub uninterp spec fn uri_port(url: Seq<char>) -> Option<u16>;

/// What the `http` crate makes of a URL: nothing if it does not take it for
/// one, else its host and its port, each if there is one.
pub open spec fn uri_parts(url: Seq<char>) -> Option<(Option<Seq<char>>, Option<u16>)> {
    if uri_accepts(url) {
        Some((uri_host(url), uri_port(url)))
    } else {
        None
    }
}

/// The host of a URL as the bytes that name it.
pub open spec fn host_bytes(host: Option<Seq<char>>) -> Option<Seq<u8>> {
    match host {
        Some(h) => Some(encode_utf8(h)),
        None => None,
    }
}

/// A host as a value.
pub open spec fn host_view(host: Option<String>) -> Option<Seq<char>> {
    match host {
        Some(h) => Some(h@),
        None => None,
    }
}

/// The parts of a URL as values.
pub open spec fn parts_view(parts: Option<(Option<String>, Option<u16>)>) -> Option<
    (Option<Seq<char>>, Option<u16>),
> {
    match parts {
        Some((host, port)) => Some((host_view(host), port)),
        None => None,
    }
}

/// Parses `url` with `http::Uri::from_str` and reads the result with
/// `Uri::host` and `Uri::port_u16`. Nothing is claimed of what they find but
/// that it depends on the text alone: whether there is a result is the named
/// value `uri_accepts` of the text, and host and port are its named values
/// `uri_host` and `uri_port`.
#[verifier::external_body]
fn parse_target(url: &str) -> (r: Option<(Option<String>, Option<u16>)>)
    ensures
        r is Some <==> uri_accepts(url@),
        r is Some ==> host_view(r->Some_0.0) == uri_host(url@),
        r is Some ==> r->Some_0.1 == uri_port(url@),
{
    match url.parse::<http::Uri>() {
        Ok(uri) => Some((uri.host().map(|h| h.to_string()), uri.port_u16())),
        Err(_) => None,
    }
}

/// Whether `name` is `word` but for the case of ASCII letters.
pub fn matches_word(name: &Vec<u8>, word: &Vec<u8>) -> (r: bool)
    ensures
        r == is_word(name@, word@),
{
    if name.len() != word.len() {
        return false;
    }
    let mut i: usize = 0;
    while i < name.len()
        invariant
            name.len() == word.len(),
            i <= name.len(),
            forall|j: int| 0 <= j < i ==> lower(name[j]) == word[j],
        decreases name.len() - i,
    {
        let b = name[i];
        let folded: u8 = if 65 <= b && b <= 90 {
            b + 32
        } else {
            b
        };
        if folded != word[i] {
            return false;
        }
        i = i + 1;
    }
    true
}

/// The name of the `host` header.
pub fn host_name() -> (r: Vec<u8>)
    ensures
        r@ == host_word(),
{
    let r = vec![104u8, 111u8, 115u8, 116u8];
    assert(r@ =~= host_word());
    r
}

/// The name of the `authorization` header.
pub fn authorization_name() -> (r: Vec<u8>)
    ensures
        r@ == authorization_word(),
{
    let r = vec![
        97u8,
        117u8,
        116u8,
        104u8,
        111u8,
        114u8,
        105u8,
        122u8,
        97u8,
        116u8,
        105u8,
        111u8,
        110u8,
    ];
    assert(r@ =~= authorization_word());
    r
}

/// Whether the proxy sets the header of this name itself.
pub fn is_reserved_name(name: &Vec<u8>) -> (r: bool)
    ensures
        r == is_reserved(name@),
{
    let host = host_name();
    let authorization = authorization_name();
    matches_word(name, &host) || matches_word(name, &authorization)
}

/// Appends the bytes of `more` to `out`.
fn extend(out: &mut Vec<u8>, more: &Vec<u8>)
    ensures
        final(out)@ == old(out)@ + more@,
{
    let mut i: usize = 0;
    while i < more.len()
        invariant
            i <= more.len(),
            out@ == old(out)@ + more@.subrange(0, i as int),
        decreases more.len() - i,
    {
        out.push(more[i]);
        assert(more@.subrange(0, i + 1) =~= more@.subrange(0, i as int).push(more[i as int]));
        i = i + 1;
    }
    assert(more@.subrange(0, i as int) =~= more@);
}

/// The value of the `Host` header for a target with this host and port.
pub fn host_header_value(host: &str, port: Option<u16>) -> (r: Vec<u8>)
    ensures
        r@ == host_value(host.spec_bytes(), port),
{
    let mut out = host.as_bytes_vec();
    match port {
        Some(p) => {
            out.push(58u8);
            let digits = decimal_digits(p as u64);
            extend(&mut out, &digits);
            assert(out@ =~= host_value(host.spec_bytes(), port));
        },
        None => {},
    }
    out
}

/// The value of the `authorization` header for a provider's token.
pub fn bearer_value(token: &str) -> (r: Vec<u8>)
    ensures
        r@ == bearer_prefix() + token.spec_bytes(),
{
    let mut out = vec![66u8, 101u8, 97u8, 114u8, 101u8, 114u8, 32u8];
    assert(out@ =~= bearer_prefix());
    let bytes = token.as_bytes_vec();
    extend(&mut out, &bytes);
    out
}

/// The inbound headers that are passed on: all but `host` and
/// `authorization`, in their order.
pub fn passed_on_headers(inbound: &Vec<Header>) -> (r: Vec<Header>)
    ensures
        header_views(r@) == passed_on(header_views(inbound@)),
{
    let mut out: Vec<Header> = Vec::new();
    let mut i: usize = 0;
    assert(header_views(inbound@).subrange(0, 0) =~= Seq::<HeaderView>::empty());
    assert(header_views(out@) =~= Seq::<HeaderView>::empty());
    while i < inbound.len()
        invariant
            i <= inbound.len(),
            header_views(out@) == passed_on(header_views(inbound@).subrange(0, i as int)),
        decreases inbound.len() - i,
    {
        let ghost done = header_views(inbound@).subrange(0, i as int);
        let ghost more = header_views(inbound@).subrange(0, i + 1);
        assert(more.drop_last() =~= done);
        assert(more.last() == (inbound[i as int].name@, inbound[i as int].value@));
        if !is_reserved_name(&inbound[i].name) {
            let ghost before = header_views(out@);
            let name = copy_bytes(&inbound[i].name);
            let value = copy_bytes(&inbound[i].value);
            out.push(Header { name, value });
            assert(header_views(out@) =~= before.push(more.last()));
        }
        i = i + 1;
    }
    assert(header_views(inbound@).subrange(0, i as int) =~= header_views(inbound@));
    out
}

/// A copy of `bytes`.
fn copy_bytes(bytes: &Vec<u8>) -> (r: Vec<u8>)
    ensures
        r@ == bytes@,
{
    let mut out: Vec<u8> = Vec::new();
    extend(&mut out, bytes);
    assert(out@ =~= bytes@);
    out
}

/// The URL that a request with this path and query goes to at a provider.
pub fn target_url(base_url: &str, path_and_query: Option<&str>) -> (r: String)
    ensures
        r@ == target_text(base_url@, text_view(path_and_query)),
{
    let mut out = String::from_str(base_url);
    match path_and_query {
        Some(p) => {
            out.append(p);
        },
        None => {
            proof {
                reveal_strlit("/");
            }
            assert("/"@ =~= seq!['/']);
            out.append("/");
        },
    }
    out
}

/// The request that goes to `provider` for an inbound request with this
/// path and query and these headers, once the URL is parsed into `parts`.
///
/// Without parts there is no request. Else the request goes to the URL; it
/// carries the inbound headers but `host` and `authorization`, then the
/// provider's token as bearer, then the host of the URL, with its port if it
/// has one.
pub fn outbound_for(
    provider: &Provider,
    target: String,
    parts: Option<(Option<String>, Option<u16>)>,
    inbound: &Vec<Header>,
) -> (r: Result<Outbound, ForwardError>)
    ensures
        parts is None <==> r is Err,
        r is Err ==> r == Err::<Outbound, ForwardError>(ForwardError::InvalidTarget),
        match (parts, r) {
            (Some((host, port)), Ok(out)) => {
                &&& out.target@ == target@
                &&& header_views(out.headers@) == outbound_headers(
                    header_views(inbound@),
                    encode_utf8(provider.token@),
                    host_bytes(parts_view(parts)->Some_0.0),
                    port,
                )
            },
            _ => true,
        },
{
    match parts {
        None => Err(ForwardError::InvalidTarget),
        Some((host, port)) => {
            let mut headers = passed_on_headers(inbound);
            let ghost kept = header_views(headers@);
            let authorization = Header {
                name: authorization_name(),
                value: bearer_value(provider.token.as_str()),
            };
            headers.push(authorization);
            let ghost with_auth = header_views(headers@);
            assert(with_auth =~= kept.push(
                (authorization_word(), bearer_prefix() + encode_utf8(provider.token@)),
            ));
            match host {
                Some(h) => {
                    let line = Header {
                        name: host_name(),
                        value: host_header_value(h.as_str(), port),
                    };
                    headers.push(line);
                    assert(header_views(headers@) =~= with_auth.push(
                        (host_word(), host_value(encode_utf8(h@), port)),
                    ));
                },
                None => {},
            }
            Ok(Outbound { target, headers })
        },
    }
}

/// The request that goes to `provider` for an inbound request with this
/// path and query and these headers.
///
/// The URL is the provider's base URL with the path and query behind it;
/// whether it is one, and which host and port it has, is for the `http`
/// crate to say.
pub fn build_outbound(provider: &Provider, path_and_query: Option<&str>, inbound: &Vec<Header>) -> (r:
    Result<Outbound, ForwardError>)
    ensures
        ({
            let target = target_text(provider.base_url@, text_view(path_and_query));
            match uri_parts(target) {
                None => r == Err::<Outbound, ForwardError>(ForwardError::InvalidTarget),
                Some((host, port)) => {
                    &&& r is Ok
                    &&& r->Ok_0.target@ == target
                    &&& header_views(r->Ok_0.headers@) == outbound_headers(
                        header_views(inbound@),
                        encode_utf8(provider.token@),
                        host_bytes(host),
                        port,
                    )
                },
            }
        }),
{
    let target = target_url(provider.base_url.as_str(), path_and_query);
    let parts = parse_target(target.as_str());
    outbound_for(provider, target, parts, inbound)
}

/// No header that is passed on is called `host` or `authorization`, in
/// whatever case, and every header passed on was an inbound one.
pub proof fn lemma_passed_on_has_no_reserved(headers: Seq<HeaderView>)
    ensures
        forall|i: int|
            0 <= i < passed_on(headers).len() ==> {
                &&& !is_reserved(#[trigger] passed_on(headers)[i].0)
                &&& headers.contains(passed_on(headers)[i])
            },
        passed_on(headers).len() <= headers.len(),
    decreases headers.len(),
{
    if headers.len() > 0 {
        let rest = headers.drop_last();
        lemma_passed_on_has_no_reserved(rest);
        assert forall|i: int| 0 <= i < passed_on(headers).len() implies {
            &&& !is_reserved(#[trigger] passed_on(headers)[i].0)
            &&& headers.contains(passed_on(headers)[i])
        } by {
            if i < passed_on(rest).len() {
                let h = passed_on(rest)[i];
                assert(!is_reserved(passed_on(rest)[i].0));
                assert(rest.contains(h));
                let j = choose|j: int| 0 <= j < rest.len() && rest[j] == h;
                assert(headers[j] == h);
            } else {
                assert(headers[headers.len() - 1] == headers.last());
            }
        }
    }
}

/// The outbound request carries exactly one `authorization` header, the
/// provider's token as bearer, and no inbound one; and where the target has
/// a host, exactly one `host` header, made from the target and not from the
/// inbound request.
pub proof fn lemma_outbound_sets_its_own(
    inbound: Seq<HeaderView>,
    token: Seq<u8>,
    host: Option<Seq<u8>>,
    port: Option<u16>,
)
    ensures
        ({
            let out = outbound_headers(inbound, token, host, port);
            let kept = passed_on(inbound).len() as int;
            &&& out[kept] == (authorization_word(), bearer_prefix() + token)
            &&& forall|i: int|
                0 <= i < out.len() && is_word(#[trigger] out[i].0, authorization_word()) ==> i == kept
            &&& match host {
                Some(h) => {
                    &&& out.len() == kept + 2
                    &&& out[kept + 1] == (host_word(), host_value(h, port))
                    &&& forall|i: int|
                        0 <= i < out.len() && is_word(#[trigger] out[i].0, host_word()) ==> i == kept
                            + 1
                },
                None => {
                    &&& out.len() == kept + 1
                    &&& forall|i: int| 0 <= i < out.len() ==> !is_word(#[trigger] out[i].0, host_word())
                },
            }
        }),
{
    lemma_passed_on_has_no_reserved(inbound);
    let out = outbound_headers(inbound, token, host, port);
    let kept = passed_on(inbound).len() as int;
    assert(!is_word(authorization_word(), host_word()));
    assert(!is_word(host_word(), authorization_word()));
    assert forall|i: int| 0 <= i < kept implies out[i] == passed_on(inbound)[i] by {}
}

} // verus!
