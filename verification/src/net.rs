//! The HTTP exchange used to read the apparent public IP: the request text,
//! the body of the reply, and the reading of the IP-echo answer.
//!
//! The bytes are sent and received by the application shell over whatever
//! stream it holds (a direct TCP socket, or a Tor stream).
use vstd::prelude::*;
use vstd::utf8::{valid_utf8, decode_utf8};
use crate::text::{after_first, chars_of, slice_chars, split_once, string_of, trim, trimmed};
use crate::types::{GosError, clone_opt_string};

verus! {

/// A free, no-key, HTTP (port 80) IP-echo endpoint that also returns country.
pub const IP_API_HOST: &'static str = "ip-api.com";

pub const IP_API_PATH: &'static str = "/json/?fields=status,country,countryCode,query";

/// The apparent public IP and where it is located.
#[derive(Debug)]
pub struct IpInfo {
    pub ip: String,
    pub country: Option<String>,
    pub country_code: Option<String>,
}

impl Clone for IpInfo {
    fn clone(&self) -> (r: Self)
        ensures
            r == *self,
    {
        IpInfo {
            ip: self.ip.clone(),
            country: clone_opt_string(&self.country),
            country_code: clone_opt_string(&self.country_code),
        }
    }
}

/// The fields of the IP-echo answer that the library reads, as decoded from
/// its JSON.
#[derive(Debug)]
pub struct IpApiResponse {
    pub query: Option<String>,
    pub country: Option<String>,
    pub country_code: Option<String>,
}

/// The text of `GET path` to `host`, HTTP/1.0, asking the server to close.
pub open spec fn http_request_text(host: Seq<char>, path: Seq<char>, accept: Seq<char>) -> Seq<char> {
    "GET "@ + path + " HTTP/1.0\r\nHost: "@ + host + "\r\nUser-Agent: gos/0.1\r\nAccept: "@
        + accept + "\r\nConnection: close\r\n\r\n"@
}

/// The request that reads `path` from `host`.
pub fn http_request(host: &str, path: &str, accept: &str) -> (r: String)
    ensures
        r@ == http_request_text(host@, path@, accept@),
{
    let mut r = "GET ".to_owned();
    r.push_str(path);
    r.push_str(" HTTP/1.0\r\nHost: ");
    r.push_str(host);
    r.push_str("\r\nUser-Agent: gos/0.1\r\nAccept: ");
    r.push_str(accept);
    r.push_str("\r\nConnection: close\r\n\r\n");
    r
}

/// What `String::from_utf8_lossy` makes of `bytes`.
pub uninterp spec fn utf8_lossy(bytes: Seq<u8>) -> Seq<char>;

/// `String::from_utf8_lossy`: the text of `bytes`, with each invalid
/// sequence replaced by U+FFFD; valid UTF-8 is decoded as it stands.
#[verifier::external_body]
pub(crate) fn decode_lossy(bytes: &[u8]) -> (s: String)
    ensures
        s@ == utf8_lossy(bytes@),
        valid_utf8(bytes@) ==> s@ == decode_utf8(bytes@),
{
    String::from_utf8_lossy(bytes).to_string()
}

/// The separator of an HTTP head from its body.
pub open spec fn head_end() -> Seq<char> {
    "\r\n\r\n"@
}

/// The body of an HTTP reply: what follows the first blank line, trimmed;
/// empty when there is no blank line.
pub open spec fn response_body(text: Seq<char>) -> Seq<char> {
    match after_first(text, head_end()) {
        Some(rest) => trim(rest),
        None => Seq::empty(),
    }
}

/// The body of the reply `raw`, decoded as text.
pub fn http_response_body(raw: &[u8]) -> (body: String)
    ensures
        body@ == response_body(utf8_lossy(raw@)),
{
    let text = decode_lossy(raw);
    let cs = chars_of(text.as_str());
    let sep = chars_of("\r\n\r\n");
    match split_once(&cs, &sep) {
        Some((_, rest)) => trimmed(&rest),
        None => String::new(),
    }
}

/// The first `n` characters of `s` (all of them when it is shorter).
pub open spec fn prefix_upto(s: Seq<char>, n: nat) -> Seq<char> {
    if s.len() <= n { s } else { s.take(n as int) }
}

/// The text of the error for an IP-echo answer that did not decode.
pub open spec fn ip_api_parse_error(body: Seq<char>, err: Seq<char>) -> Seq<char> {
    "parse ip-api failed ("@ + prefix_upto(body, 80) + "): "@ + err
}

/// Appends at most the first `n` characters of `s` to `out`.
pub fn push_prefix(out: &mut String, s: &str, n: usize)
    ensures
        final(out)@ == old(out)@ + prefix_upto(s@, n as nat),
{
    let cs = chars_of(s);
    let end = if cs.len() <= n { cs.len() } else { n };
    let p = slice_chars(&cs, 0, end);
    let ps = string_of(&p);
    out.push_str(ps.as_str());
    assert(p@ =~= prefix_upto(s@, n as nat));
}

/// Reads the IP-echo answer `body`, given what decoding its JSON gave
/// (`Err` holds the decoder's message).
pub fn parse_ip_api(body: &str, decoded: Result<IpApiResponse, String>) -> (r: Result<IpInfo, GosError>)
    ensures
        match decoded {
            Err(e) => r matches Err(GosError::Privacy(m)) && m@ == ip_api_parse_error(body@, e@),
            Ok(resp) => match resp.query {
                None => r matches Err(GosError::Privacy(m)) && m@ == "ip-api response had no IP"@,
                Some(ip) => r == Ok::<IpInfo, GosError>(
                    IpInfo { ip, country: resp.country, country_code: resp.country_code },
                ),
            },
        },
{
    match decoded {
        Err(e) => {
            let mut m = "parse ip-api failed (".to_owned();
            push_prefix(&mut m, body, 80);
            m.push_str("): ");
            m.push_str(e.as_str());
            Err(GosError::Privacy(m))
        },
        Ok(resp) => match resp.query {
            None => Err(GosError::Privacy("ip-api response had no IP".to_owned())),
            Some(ip) => Ok(IpInfo { ip, country: resp.country, country_code: resp.country_code }),
        },
    }
}

} // verus!
