//! How a plugin's call is forwarded upstream, and how the event stream is requested.
use vstd::prelude::*;
use crate::config::{api_url_spec, BotConfig};
use crate::runner::{append_str, owned, pairs_view};

verus! {

/// Largest request body forwarded, in bytes.
pub const MAX_BODY_BYTES: usize = 4 * 1024 * 1024;

/// Status answered to a call without a valid credential.
pub const STATUS_UNAUTHORIZED: u16 = 401;

/// Status answered when the upstream cannot be reached.
pub const STATUS_BAD_GATEWAY: u16 = 502;

pub open spec fn opt_seq(o: Option<&str>) -> Option<Seq<char>> {
    match o {
        Some(s) => Some(s@),
        None => None,
    }
}

/// The headers of a forwarded call: the caller's content type (JSON when it gave none),
/// its `Accept` if any, the upstream's credential if one is configured, and the calling
/// plugin's id.
pub open spec fn forward_headers_spec(
    content_type: Option<Seq<char>>,
    accept: Option<Seq<char>>,
    upstream_token: Option<Seq<char>>,
    plugin_id: Seq<char>,
) -> Seq<(Seq<char>, Seq<char>)> {
    let ct = seq![("Content-Type"@, match content_type {
        Some(c) => c,
        None => "application/json"@,
    })];
    let acc = match accept {
        Some(a) => seq![("Accept"@, a)],
        None => Seq::empty(),
    };
    let auth = match upstream_token {
        Some(t) => seq![("Authorization"@, "Bearer "@ + t)],
        None => Seq::empty(),
    };
    ct + acc + auth + seq![("X-YUYU-PLUGIN-ID"@, plugin_id)]
}

/// The headers of the request that opens the upstream event stream.
pub open spec fn event_headers_spec(upstream_token: Option<Seq<char>>) -> Seq<(Seq<char>, Seq<char>)> {
    seq![("Accept"@, "text/event-stream"@), ("Cache-Control"@, "no-cache"@)] + match upstream_token {
        Some(t) => seq![("Authorization"@, "Bearer "@ + t)],
        None => Seq::empty(),
    }
}

fn bearer_value(token: &str) -> (r: String)
    ensures
        r@ == "Bearer "@ + token@,
{
    let mut r = owned("Bearer ");
    append_str(&mut r, token);
    r
}

/// The headers a plugin's call is forwarded with.
pub fn forward_headers(
    content_type: Option<&str>,
    accept: Option<&str>,
    upstream_token: Option<&str>,
    plugin_id: &str,
) -> (r: Vec<(String, String)>)
    ensures
        pairs_view(r@) == forward_headers_spec(opt_seq(content_type), opt_seq(accept), opt_seq(upstream_token), plugin_id@),
{
    let mut r: Vec<(String, String)> = Vec::new();
    let ct = match content_type {
        Some(c) => owned(c),
        None => owned("application/json"),
    };
    r.push((owned("Content-Type"), ct));
    match accept {
        Some(a) => r.push((owned("Accept"), owned(a))),
        None => {},
    }
    match upstream_token {
        Some(t) => r.push((owned("Authorization"), bearer_value(t))),
        None => {},
    }
    r.push((owned("X-YUYU-PLUGIN-ID"), owned(plugin_id)));
    assert(pairs_view(r@) =~= forward_headers_spec(opt_seq(content_type), opt_seq(accept), opt_seq(upstream_token), plugin_id@));
    r
}

/// The headers the upstream event stream is requested with.
pub fn event_headers(upstream_token: Option<&str>) -> (r: Vec<(String, String)>)
    ensures
        pairs_view(r@) == event_headers_spec(opt_seq(upstream_token)),
{
    let mut r: Vec<(String, String)> = Vec::new();
    r.push((owned("Accept"), owned("text/event-stream")));
    r.push((owned("Cache-Control"), owned("no-cache")));
    match upstream_token {
        Some(t) => r.push((owned("Authorization"), bearer_value(t))),
        None => {},
    }
    assert(pairs_view(r@) =~= event_headers_spec(opt_seq(upstream_token)));
    r
}

/// Where a plugin's call to `method` goes upstream.
pub fn forward_url(config: &BotConfig, method: &str) -> (r: String)
    ensures
        r@ == api_url_spec(config.host@, config.api_port) + "/"@ + method@,
{
    let mut r = config.get_api_url();
    append_str(&mut r, "/");
    append_str(&mut r, method);
    r
}

/// Whether a request body may be forwarded.
pub fn body_fits(len: usize) -> (r: bool)
    ensures
        r == (len <= MAX_BODY_BYTES),
{
    len <= MAX_BODY_BYTES
}

} // verus!
