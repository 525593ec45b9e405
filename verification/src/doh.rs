//! DNS-over-HTTPS via the JSON API (`application/dns-json`): the pinned
//! endpoint of each provider, the query path, and the reading of the answer.
//!
//! The TLS connection and the HTTP exchange are made by the application
//! shell.
use vstd::prelude::*;
use crate::net::{prefix_upto, push_prefix};
use crate::settings::DohProvider;
use crate::text::string_views;
use crate::types::GosError;

verus! {

/// A pinned IPv4 resolver address and the TLS server name to expect there.
#[derive(Debug)]
pub struct DohEndpoint {
    pub ip: [u8; 4],
    pub tls_name: String,
}

/// The pinned endpoint of each provider (no DNS needed to find the DNS
/// server, and no IPv6-only route).
pub open spec fn endpoint_is(e: DohEndpoint, provider: DohProvider) -> bool {
    match provider {
        DohProvider::Cloudflare => e.ip@ == seq![1u8, 1, 1, 1] && e.tls_name@ == "cloudflare-dns.com"@,
        DohProvider::Quad9 => e.ip@ == seq![9u8, 9, 9, 9] && e.tls_name@ == "dns.quad9.net"@,
        DohProvider::Google => e.ip@ == seq![8u8, 8, 8, 8] && e.tls_name@ == "dns.google"@,
    }
}

/// The pinned endpoint of `provider`.
pub fn endpoint(provider: DohProvider) -> (e: DohEndpoint)
    ensures
        endpoint_is(e, provider),
{
    let e = match provider {
        DohProvider::Cloudflare => DohEndpoint { ip: [1, 1, 1, 1], tls_name: "cloudflare-dns.com".to_owned() },
        DohProvider::Quad9 => DohEndpoint { ip: [9, 9, 9, 9], tls_name: "dns.quad9.net".to_owned() },
        DohProvider::Google => DohEndpoint { ip: [8, 8, 8, 8], tls_name: "dns.google".to_owned() },
    };
    assert(e.ip@ =~= match provider {
        DohProvider::Cloudflare => seq![1u8, 1, 1, 1],
        DohProvider::Quad9 => seq![9u8, 9, 9, 9],
        DohProvider::Google => seq![8u8, 8, 8, 8],
    });
    e
}

/// The path that asks for the A records of `host`.
pub fn query_path(host: &str) -> (p: String)
    ensures
        p@ == "/dns-query?name="@ + host@ + "&type=A"@,
{
    let mut p = "/dns-query?name=".to_owned();
    p.push_str(host);
    p.push_str("&type=A");
    p
}

/// One record of the answer, as decoded from its JSON.
#[derive(Debug)]
pub struct DohAnswer {
    pub rtype: u16,
    pub data: String,
}

/// The answer section, as decoded from its JSON (absent when the name has no
/// records).
#[derive(Debug)]
pub struct DohResponse {
    pub answer: Option<Vec<DohAnswer>>,
}

/// The data of the A records (type 1) among `ans`, in order.
pub open spec fn a_record_data(ans: Seq<DohAnswer>) -> Seq<Seq<char>>
    decreases ans.len(),
{
    if ans.len() == 0 {
        Seq::empty()
    } else {
        let rest = a_record_data(ans.drop_last());
        if ans.last().rtype == 1 { rest.push(ans.last().data@) } else { rest }
    }
}

/// The text of the error for an answer that did not decode.
pub open spec fn doh_parse_error(body: Seq<char>, err: Seq<char>) -> Seq<char> {
    "DoH parse ("@ + prefix_upto(body, 80) + "): "@ + err
}

/// The texts of the A records in the answer `body`, given what decoding its
/// JSON gave (`Err` holds the decoder's message).
pub fn a_records(body: &str, decoded: Result<DohResponse, String>) -> (r: Result<Vec<String>, GosError>)
    ensures
        match decoded {
            Err(e) => r matches Err(GosError::Privacy(m)) && m@ == doh_parse_error(body@, e@),
            Ok(resp) => r matches Ok(v) && string_views(v@) == match resp.answer {
                Some(ans) => a_record_data(ans@),
                None => Seq::empty(),
            },
        },
{
    match decoded {
        Err(e) => {
            let mut m = "DoH parse (".to_owned();
            push_prefix(&mut m, body, 80);
            m.push_str("): ");
            m.push_str(e.as_str());
            Err(GosError::Privacy(m))
        },
        Ok(resp) => match resp.answer {
            None => {
                let v: Vec<String> = Vec::new();
                assert(string_views(v@) =~= Seq::<Seq<char>>::empty());
                Ok(v)
            },
            Some(ans) => {
                let ghost all = ans@;
                let mut out: Vec<String> = Vec::new();
                let mut i: usize = 0;
                let n = ans.len();
                let mut ans = ans;
                assert(all.take(0) =~= Seq::<DohAnswer>::empty());
                assert(string_views(out@) =~= Seq::<Seq<char>>::empty());
                while i < n
                    invariant
                        n == all.len(),
                        i <= n,
                        ans@ == all,
                        string_views(out@) == a_record_data(all.take(i as int)),
                    decreases n - i,
                {
                    assert(all.take(i + 1).drop_last() =~= all.take(i as int));
                    if ans[i].rtype == 1 {
                        let d = ans[i].data.clone();
                        out.push(d);
                    }
                    assert(string_views(out@) =~= a_record_data(all.take(i + 1)));
                    i = i + 1;
                }
                assert(all.take(n as int) =~= all);
                Ok(out)
            },
        },
    }
}

/// The `Some` values of `s`, in order.
pub open spec fn somes<T>(s: Seq<Option<T>>) -> Seq<T>
    decreases s.len(),
{
    if s.len() == 0 {
        Seq::empty()
    } else {
        let rest = somes(s.drop_last());
        match s.last() {
            Some(x) => rest.push(x),
            None => rest,
        }
    }
}

/// The addresses that parsed (`None` for a record whose text is not an
/// address); no address at all is an error.
pub fn collect_addresses<T>(parsed: Vec<Option<T>>) -> (r: Result<Vec<T>, GosError>)
    ensures
        if somes(parsed@).len() > 0 {
            r matches Ok(v) && v@ == somes(parsed@)
        } else {
            r matches Err(GosError::Privacy(m)) && m@ == "DoH returned no A records"@
        },
{
    let ghost all = parsed@;
    let mut out: Vec<T> = Vec::new();
    let mut parsed = parsed;
    let mut rev: Vec<Option<T>> = Vec::new();
    while parsed.len() > 0
        invariant
            all == parsed@ + rev@.reverse(),
        decreases parsed@.len(),
    {
        let x = parsed.pop().unwrap();
        proof {
            assert(rev@.push(x).reverse() =~= seq![x] + rev@.reverse());
        }
        rev.push(x);
    }
    assert(all =~= rev@.reverse());
    let n = rev.len();
    let mut i: usize = 0;
    assert(all.take(0) =~= Seq::<Option<T>>::empty());
    assert(all.skip(0) =~= all);
    while i < n
        invariant
            n == all.len(),
            i <= n,
            rev@.len() == n - i,
            all.skip(i as int) == rev@.reverse(),
            out@ == somes(all.take(i as int)),
        decreases n - i,
    {
        assert(all.take(i + 1).drop_last() =~= all.take(i as int));
        let ghost before = rev@;
        let x = rev.pop().unwrap();
        assert(before =~= rev@.push(x));
        assert(before.reverse() =~= seq![x] + rev@.reverse());
        assert(all.skip(i as int)[0] == before.reverse()[0]);
        assert(x == all[i as int]);
        assert(all.skip(i + 1) =~= all.skip(i as int).drop_first());
        assert((seq![x] + rev@.reverse()).drop_first() =~= rev@.reverse());
        match x {
            Some(v) => out.push(v),
            None => {},
        }
        i = i + 1;
    }
    assert(all.take(n as int) =~= all);
    if out.len() == 0 {
        return Err(GosError::Privacy("DoH returned no A records".to_owned()));
    }
    Ok(out)
}

/// The error for a failed step of the DoH exchange, such as connecting or
/// the TLS handshake: `context: err`.
pub fn privacy_failure(context: &str, err: &str) -> (e: GosError)
    ensures
        e matches GosError::Privacy(m) && m@ == context@ + ": "@ + err@,
{
    let mut m = context.to_owned();
    m.push_str(": ");
    m.push_str(err);
    GosError::Privacy(m)
}

} // verus!
