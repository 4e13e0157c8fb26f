//! Telling where a request comes from.

use crate::headers;
use crate::headers::get_header;
use crate::text;
use crate::text::{cut_text, trim_text};
use axum::http::HeaderMap;
use vstd::prelude::*;

verus! {

/// An address, as the number that its bits make.
#[derive(Debug, Clone, Copy, PartialEq, Eq, Structural)]
pub enum IpAddr {
    V4(u32),
    V6(u128),
}

impl IpAddr {
    /// Whether an address is that of the machine itself: `127.0.0.0/8` or
    /// `::1`.
    pub open spec fn loopback(self) -> bool {
        match self {
            IpAddr::V4(bits) => 0x7f00_0000 <= bits <= 0x7fff_ffff,
            IpAddr::V6(bits) => bits == 1,
        }
    }

    /// Whether the address is that of the machine itself.
    pub fn is_loopback(&self) -> (yes: bool)
        ensures
            yes == self.loopback(),
            *self matches IpAddr::V4(bits) ==> (yes <==> bits / 0x100_0000 == 127),
            *self matches IpAddr::V6(bits) ==> (yes <==> bits == 1),
    {
        match *self {
            IpAddr::V4(bits) => 0x7f00_0000 <= bits && bits <= 0x7fff_ffff,
            IpAddr::V6(bits) => bits == 1,
        }
    }
}

/// The texts in which proxies name the client. Each is yet to be read as an
/// address.
#[derive(Debug, Clone, Copy)]
pub struct ProxyTexts<'a> {
    pub cf_connecting_ip: Option<&'a str>,
    pub x_real_ip: Option<&'a str>,
    pub x_forwarded_for: Option<&'a str>,
}

/// The client of a list of forwarders: the first item, without blanks.
pub open spec fn first_forwarded(list: Option<Seq<char>>) -> Option<Seq<char>> {
    match list {
        Some(l) => Some(text::trim(text::split(l, ',')[0])),
        None => None,
    }
}

/// The texts in which proxies name the client: the Cloudflare header, the
/// real-IP header, and the first item of the forwarded-for list.
pub fn proxy_texts<'a>(headers: &'a HeaderMap) -> (texts: ProxyTexts<'a>)
    ensures
        text::view_str(texts.cf_connecting_ip) == headers::header_text(
            headers::header_values(*headers),
            "cf-connecting-ip"@,
        ),
        text::view_str(texts.x_real_ip) == headers::header_text(
            headers::header_values(*headers),
            "x-real-ip"@,
        ),
        text::view_str(texts.x_forwarded_for) == first_forwarded(
            headers::header_text(headers::header_values(*headers), "x-forwarded-for"@),
        ),
{
    proof {
        reveal_strlit("cf-connecting-ip");
        reveal_strlit("x-real-ip");
        reveal_strlit("x-forwarded-for");
    }
    ProxyTexts {
        cf_connecting_ip: get_header(headers, "cf-connecting-ip"),
        x_real_ip: get_header(headers, "x-real-ip"),
        x_forwarded_for: match get_header(headers, "x-forwarded-for") {
            Some(list) => Some(trim_text(cut_text(list, ',').0)),
            None => None,
        },
    }
}

/// The addresses that proxies give for the client; `None` where there is none
/// or it cannot be read.
#[derive(Debug, Clone, Copy, PartialEq, Eq, Structural)]
pub struct ProxyIps {
    pub cf_connecting_ip: Option<IpAddr>,
    pub x_real_ip: Option<IpAddr>,
    pub x_forwarded_for: Option<IpAddr>,
}

/// The address that is taken for the client's.
pub open spec fn client_ip(proxy: ProxyIps, peer: Option<IpAddr>, trust_proxy: bool) -> IpAddr {
    if trust_proxy && proxy.cf_connecting_ip is Some {
        proxy.cf_connecting_ip->0
    } else if trust_proxy && proxy.x_real_ip is Some {
        proxy.x_real_ip->0
    } else if trust_proxy && proxy.x_forwarded_for is Some {
        proxy.x_forwarded_for->0
    } else if peer is Some {
        peer->0
    } else {
        IpAddr::V4(0)
    }
}

/// Whether `ip` is what reading a text as an address may give: none where
/// there is no text.
pub open spec fn reads_as<P: Fn(&str) -> Option<IpAddr>>(
    parse: P,
    written: Option<Seq<char>>,
    ip: Option<IpAddr>,
) -> bool {
    match written {
        Some(w) => exists|t: &str| t@ == w && #[trigger] call_ensures(parse, (t,), ip),
        None => ip is None,
    }
}

/// Reads a text as an address, if there is one.
fn read_ip<P: Fn(&str) -> Option<IpAddr>>(parse: &P, written: Option<&str>) -> (ip: Option<IpAddr>)
    requires
        forall|t: &str| call_requires(parse, (t,)),
    ensures
        reads_as(*parse, text::view_str(written), ip),
{
    match written {
        Some(t) => parse(t),
        None => None,
    }
}

/// Whether `proxy` holds what reading the headers of proxies as addresses may
/// give.
pub open spec fn reads_headers<P: Fn(&str) -> Option<IpAddr>>(
    parse: P,
    values: Map<Seq<char>, Seq<Seq<u8>>>,
    proxy: ProxyIps,
) -> bool {
    &&& reads_as(parse, headers::header_text(values, "cf-connecting-ip"@), proxy.cf_connecting_ip)
    &&& reads_as(parse, headers::header_text(values, "x-real-ip"@), proxy.x_real_ip)
    &&& reads_as(
        parse,
        first_forwarded(headers::header_text(values, "x-forwarded-for"@)),
        proxy.x_forwarded_for,
    )
}

/// The addresses that proxies give for the client. `parse` reads a text as an
/// address.
pub fn read_proxy_ips<P: Fn(&str) -> Option<IpAddr>>(headers: &HeaderMap, parse: P) -> (proxy:
    ProxyIps)
    requires
        forall|t: &str| call_requires(parse, (t,)),
    ensures
        reads_headers(parse, headers::header_values(*headers), proxy),
{
    let texts = proxy_texts(headers);
    ProxyIps {
        cf_connecting_ip: read_ip(&parse, texts.cf_connecting_ip),
        x_real_ip: read_ip(&parse, texts.x_real_ip),
        x_forwarded_for: read_ip(&parse, texts.x_forwarded_for),
    }
}

/// The client's address: the first that a proxy gives, if proxies are trusted,
/// else that of the peer, else the unspecified address.
pub fn choose_client_ip(proxy: &ProxyIps, peer: Option<IpAddr>, trust_proxy: bool) -> (ip: IpAddr)
    ensures
        ip == client_ip(*proxy, peer, trust_proxy),
{
    if trust_proxy {
        if let Some(ip) = proxy.cf_connecting_ip {
            return ip;
        }
        if let Some(ip) = proxy.x_real_ip {
            return ip;
        }
        if let Some(ip) = proxy.x_forwarded_for {
            return ip;
        }
    }
    match peer {
        Some(ip) => ip,
        None => IpAddr::V4(0),
    }
}

/// The client's address of a request with these headers that came from `peer`.
/// `parse` reads a text as an address.
pub fn extract_client_ip<P: Fn(&str) -> Option<IpAddr>>(
    headers: &HeaderMap,
    peer: Option<IpAddr>,
    trust_proxy: bool,
    parse: P,
) -> (ip: IpAddr)
    requires
        forall|t: &str| call_requires(parse, (t,)),
    ensures
        exists|proxy: ProxyIps| #[trigger]
            reads_headers(parse, headers::header_values(*headers), proxy) && ip == client_ip(
                proxy,
                peer,
                trust_proxy,
            ),
{
    let proxy = read_proxy_ips(headers, parse);
    choose_client_ip(&proxy, peer, trust_proxy)
}

/// Where proxies are not trusted, what they say has no effect.
pub proof fn law_untrusted_proxies_are_ignored(
    proxy: ProxyIps,
    other: ProxyIps,
    peer: Option<IpAddr>,
)
    ensures
        client_ip(proxy, peer, false) == client_ip(other, peer, false),
{
}

/// A request whose origin is unknown does not count as local.
pub proof fn law_unknown_origin_is_not_local(proxy: ProxyIps)
    ensures
        !client_ip(proxy, None, false).loopback(),
{
}

/// An IPv4 address is local exactly if its first byte is 127, and an IPv6
/// address exactly if it is `::1`.
pub proof fn law_what_is_local(v4: u32, v6: u128)
    ensures
        IpAddr::V4(v4).loopback() <==> v4 / 0x100_0000 == 127,
        IpAddr::V6(v6).loopback() <==> v6 == 1,
{
}

/// Of the addresses that trusted proxies give, the first that can be read
/// counts; without any, and without trust, the peer's does.
pub proof fn law_first_address_counts(proxy: ProxyIps, peer: Option<IpAddr>, ip: IpAddr)
    ensures
        proxy.cf_connecting_ip == Some(ip) ==> client_ip(proxy, peer, true) == ip,
        proxy.cf_connecting_ip is None && proxy.x_real_ip == Some(ip) ==> client_ip(
            proxy,
            peer,
            true,
        ) == ip,
        proxy.cf_connecting_ip is None && proxy.x_real_ip is None && proxy.x_forwarded_for
            == Some(ip) ==> client_ip(proxy, peer, true) == ip,
        proxy.cf_connecting_ip is None && proxy.x_real_ip is None && proxy.x_forwarded_for is None
            ==> client_ip(proxy, peer, true) == client_ip(proxy, peer, false),
        peer == Some(ip) ==> client_ip(proxy, peer, false) == ip,
        client_ip(proxy, None, false) == IpAddr::V4(0),
{
}

/// The client of a list of forwarders is what stands before the first comma, or
/// the whole list, without the blanks around it.
pub proof fn law_first_forwarder_is_the_client(
    before: Seq<char>,
    client: Seq<char>,
    after: Seq<char>,
    rest: Seq<char>,
)
    requires
        forall|i: int| 0 <= i < before.len() ==> #[trigger] before[i] == ' ' || before[i] == '\t',
        forall|i: int| 0 <= i < after.len() ==> #[trigger] after[i] == ' ' || after[i] == '\t',
        !client.contains(','),
        client.len() > 0 ==> client[0] != ' ' && client[0] != '\t',
        client.len() > 0 ==> client.last() != ' ' && client.last() != '\t',
    ensures
        first_forwarded(Some(before + client + after)) == Some(client),
        first_forwarded(Some(before + client + after + (seq![','] + rest))) == Some(client),
        first_forwarded(None) is None,
{
    let item = before + client + after;
    assert(!item.contains(',')) by {
        if item.contains(',') {
            let i = item.index_of(',');
            if i < before.len() {
                assert(before[i] == ',');
            } else if i < before.len() + client.len() {
                assert(client[i - before.len()] == ',');
            } else {
                assert(after[i - before.len() - client.len()] == ',');
            }
        }
    }
    text::law_trim_takes_the_blanks(before, client, after);
    text::lemma_cut(item, ',', rest);
    text::lemma_cut_absent(item, ',');
}

/// If `parse` reads each text in one way, the address of the client is read from
/// the three headers of proxies, in their order, where they are trusted.
pub proof fn law_client_ip_is_read_from_the_headers<P: Fn(&str) -> Option<IpAddr>>(
    parse: P,
    reading: spec_fn(Seq<char>) -> Option<IpAddr>,
    values: Map<Seq<char>, Seq<Seq<u8>>>,
    proxy: ProxyIps,
    peer: Option<IpAddr>,
)
    requires
        forall|t: &str, ip: Option<IpAddr>| #[trigger]
            call_ensures(parse, (t,), ip) ==> ip == reading(t@),
        reads_headers(parse, values, proxy),
    ensures
        headers::header_text(values, "cf-connecting-ip"@) matches Some(w) ==> (reading(
            w,
        ) matches Some(ip) ==> client_ip(proxy, peer, true) == ip),
        headers::header_text(values, "cf-connecting-ip"@) is None ==> (headers::header_text(
            values,
            "x-real-ip"@,
        ) matches Some(w) ==> (reading(w) matches Some(ip) ==> client_ip(proxy, peer, true)
            == ip)),
        headers::header_text(values, "cf-connecting-ip"@) is None && headers::header_text(
            values,
            "x-real-ip"@,
        ) is None ==> (first_forwarded(
            headers::header_text(values, "x-forwarded-for"@),
        ) matches Some(w) ==> (reading(w) matches Some(ip) ==> client_ip(proxy, peer, true)
            == ip)),
        headers::header_text(values, "cf-connecting-ip"@) matches Some(w) ==> proxy.cf_connecting_ip
            == reading(w),
        headers::header_text(values, "x-real-ip"@) matches Some(w) ==> proxy.x_real_ip == reading(w),
        first_forwarded(
            headers::header_text(values, "x-forwarded-for"@),
        ) matches Some(w) ==> proxy.x_forwarded_for == reading(w),
        headers::header_text(values, "x-forwarded-for"@) is None ==> proxy.x_forwarded_for is None,
        headers::header_text(values, "x-real-ip"@) is None ==> proxy.x_real_ip is None,
        headers::header_text(values, "cf-connecting-ip"@) is None
            ==> proxy.cf_connecting_ip is None,
{
}

} // verus!
