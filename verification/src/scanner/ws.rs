//! The stream of mempool transactions.

use vstd::prelude::*;

use crate::json::Json;
use crate::text::{join2, strip_prefix, text_eq};

verus! {

/// Seconds before the first attempt to reconnect.
pub const RECONNECT_MIN_SECS: u64 = 3;

/// Seconds between attempts to reconnect, at most.
pub const RECONNECT_MAX_SECS: u64 = 30;

/// A transaction that was pushed.
#[derive(Debug)]
pub struct MempoolPush {
    pub txid: String,
    pub raw_hex: String,
}

/// The address of the stream that belongs to the address of an interface.
pub open spec fn ws_url(api_url: Seq<char>) -> Seq<char> {
    if "https://"@.is_prefix_of(api_url) {
        "wss://"@ + api_url.skip(8)
    } else if "http://"@.is_prefix_of(api_url) {
        "ws://"@ + api_url.skip(7)
    } else {
        "ws://"@ + api_url
    }
}

/// The address of the stream that belongs to the address of an interface.
pub fn api_url_to_ws(api_url: &str) -> (r: String)
    ensures
        r@ == ws_url(api_url@),
{
    proof {
        reveal_strlit("https://");
        reveal_strlit("http://");
    }
    match strip_prefix(api_url, "https://") {
        Some(rest) => join2("wss://", rest),
        None => match strip_prefix(api_url, "http://") {
            Some(rest) => join2("ws://", rest),
            None => join2("ws://", api_url),
        },
    }
}

/// The transaction that a message pushes, if it pushes one.
pub open spec fn pushed(msg: Json) -> Option<(Seq<char>, Seq<char>)> {
    if msg.member_text("type"@) == Some("mempool_tx"@) {
        match msg.spec_get("data"@) {
            Some(data) => match (data.member_text("txid"@), data.member_text("raw_hex"@)) {
                (Some(txid), Some(raw_hex)) => if raw_hex.len() > 0 {
                    Some((txid, raw_hex))
                } else {
                    None
                },
                _ => None,
            },
            None => None,
        }
    } else {
        None
    }
}

/// The transaction that a message pushes, if it pushes one.
pub fn parse_mempool_tx(msg: &Json) -> (r: Option<MempoolPush>)
    ensures
        match r {
            Some(p) => pushed(*msg) == Some((p.txid@, p.raw_hex@)),
            None => pushed(*msg) is None,
        },
{
    let is_tx: bool = match msg.get_text("type") {
        Some(t) => text_eq(t.as_str(), "mempool_tx"),
        None => false,
    };
    if !is_tx {
        return None;
    }
    let data: &Json = match msg.get("data") {
        Some(d) => d,
        None => {
            return None;
        },
    };
    match (data.get_text("txid"), data.get_text("raw_hex")) {
        (Some(txid), Some(raw_hex)) => if raw_hex.as_str().is_empty() {
            None
        } else {
            Some(MempoolPush { txid: txid.clone(), raw_hex: raw_hex.clone() })
        },
        _ => None,
    }
}

/// Seconds to wait before the attempt after one that waited for `delay`.
pub fn next_reconnect_delay(delay: u64) -> (r: u64)
    requires
        delay <= RECONNECT_MAX_SECS,
    ensures
        r == if 2 * delay < RECONNECT_MAX_SECS {
            2 * delay
        } else {
            RECONNECT_MAX_SECS as int
        },
        r <= RECONNECT_MAX_SECS,
        delay >= RECONNECT_MIN_SECS ==> r >= delay,
        delay >= 15 ==> r == 30,
        delay < 15 ==> r == 2 * delay,
{
    if delay * 2 < RECONNECT_MAX_SECS {
        delay * 2
    } else {
        RECONNECT_MAX_SECS
    }
}

/// A web address is turned into one of the same host that is as safe: a secure
/// one stays secure, and one without a scheme is taken as plain.
pub proof fn push_address_is_as_safe(host: Seq<char>)
    ensures
        ws_url("https://"@ + host) == "wss://"@ + host,
        ws_url("http://"@ + host) == "ws://"@ + host,
        !"https://"@.is_prefix_of(host) && !"http://"@.is_prefix_of(host) ==> ws_url(host)
            == "ws://"@ + host,
{
    reveal_strlit("https://");
    reveal_strlit("http://");
    let secure = "https://"@ + host;
    let plain = "http://"@ + host;
    assert("https://"@.is_prefix_of(secure));
    assert("http://"@.is_prefix_of(plain));
    assert(plain[4] == ':');
    assert("https://"@[4] == 's');
    if "https://"@.is_prefix_of(plain) {
        assert(plain.take(8)[4] == "https://"@[4]);
    }
    assert(secure.skip(8) =~= host);
    assert(plain.skip(7) =~= host);
}

/// A message counts where it announces a transaction of the pool with its id and
/// its bytes, and only there.
pub proof fn only_announced_transactions_count(msg: Json)
    ensures
        pushed(msg) matches Some(p) ==> {
            &&& msg.member_text("type"@) == Some("mempool_tx"@)
            &&& msg.spec_get("data"@) matches Some(data)
            &&& data.member_text("txid"@) == Some(p.0)
            &&& data.member_text("raw_hex"@) == Some(p.1)
            &&& p.1.len() > 0
        },
        msg.member_text("type"@) == Some("mempool_tx"@) && (msg.spec_get("data"@) matches Some(data)
            && data.member_text("txid"@) is Some && (data.member_text("raw_hex"@) matches Some(h)
            && h.len() > 0)) ==> pushed(msg) is Some,
{
}

} // verus!
