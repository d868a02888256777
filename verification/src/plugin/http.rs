//! The requests that plugins make: where they may go, and how much of an answer
//! is taken.

use vstd::prelude::*;
use vstd::string::*;

use crate::outside::{url_parts, url_target};
use crate::text::{chars_of, text_of};

verus! {

broadcast use vstd::seq_lib::group_seq_properties;

/// The milliseconds that one request may take, within the time of the call.
pub const HTTP_TIMEOUT_MS: u64 = 4_000;

/// The most bytes that are taken of an answer, whatever the plugin's buffer.
pub const HTTP_RESP_MAX: usize = 65_536;

/// The target is an address that plugins may not reach.
pub const ERR_SSRF: i32 = -9;

/// The URL has no usable shape.
pub const ERR_URL: i32 = -2;

/// The network failed, or the time ran out.
pub const ERR_NETWORK: i32 = -4;

/// The answer is no success.
pub const ERR_STATUS: i32 = -5;

// ---------------------------------------------------------------------------
// Addresses
// ---------------------------------------------------------------------------

/// A network address.
#[derive(Clone, Copy, Debug)]
pub enum Address {
    V4 { octets: [u8; 4] },
    V6 { segments: [u16; 8] },
}

/// An address that is private, local or reserved.
pub open spec fn blocked_v4(a: u8, b: u8, c: u8, d: u8) -> bool {
    ||| a == 10
    ||| a == 172 && 16 <= b <= 31
    ||| a == 192 && b == 168
    ||| a == 127
    ||| a == 169 && b == 254
    ||| a == 0 && b == 0 && c == 0 && d == 0
    ||| a == 192 && b == 0 && c == 2
    ||| a == 198 && b == 51 && c == 100
    ||| a == 203 && b == 0 && c == 113
    ||| a == 100 && 64 <= b < 128
    ||| a == 192 && b == 0 && c == 0
    ||| a == 198 && (b == 18 || b == 19)
    ||| a >= 224
}

/// The address of the older kind that a newer one stands for.
pub open spec fn embedded_v4(s: Seq<u16>) -> bool {
    s[0] == 0 && s[1] == 0 && s[2] == 0 && s[3] == 0 && s[4] == 0 && s[5] == 0xffff
}

/// An address that is local, of one link, of a group, or stands for a blocked
/// one of the older kind.
pub open spec fn blocked_v6(s: Seq<u16>) -> bool {
    let front_empty = s[0] == 0 && s[1] == 0 && s[2] == 0 && s[3] == 0 && s[4] == 0 && s[5] == 0
        && s[6] == 0;
    ||| front_empty && (s[7] == 0 || s[7] == 1)
    ||| s[0] >= 0xff00
    ||| 0xfc00 <= s[0] <= 0xfdff
    ||| 0xfe80 <= s[0] <= 0xfebf
    ||| embedded_v4(s) && blocked_v4(
        (s[6] / 256) as u8,
        (s[6] % 256) as u8,
        (s[7] / 256) as u8,
        (s[7] % 256) as u8,
    )
}

/// An address that plugins may not reach.
pub open spec fn blocked(addr: Address) -> bool {
    match addr {
        Address::V4 { octets } => blocked_v4(octets@[0], octets@[1], octets@[2], octets@[3]),
        Address::V6 { segments } => blocked_v6(segments@),
    }
}

fn v4_is_blocked(a: u8, b: u8, c: u8, d: u8) -> (r: bool)
    ensures
        r == blocked_v4(a, b, c, d),
{
    let private = a == 10 || (a == 172 && 16 <= b && b <= 31) || (a == 192 && b == 168);
    let loopback = a == 127;
    let link_local = a == 169 && b == 254;
    let unspecified = a == 0 && b == 0 && c == 0 && d == 0;
    let documentation = (a == 192 && b == 0 && c == 2) || (a == 198 && b == 51 && c == 100) || (a
        == 203 && b == 0 && c == 113);
    let shared = a == 100 && 64 <= b && b < 128;
    let protocol = a == 192 && b == 0 && c == 0;
    let benchmark = a == 198 && (b == 18 || b == 19);
    let group_or_reserved = a >= 224;
    private || loopback || link_local || unspecified || documentation || shared || protocol
        || benchmark || group_or_reserved
}

/// Whether an address belongs to a network that plugins may not reach: private,
/// loopback, link-local (the metadata services of clouds among them), shared,
/// benchmark and reserved ones. A plugin may speak to the public net and is no
/// way into the private one.
pub fn address_is_blocked(addr: Address) -> (r: bool)
    ensures
        r == blocked(addr),
{
    match addr {
        Address::V4 { octets } => v4_is_blocked(octets[0], octets[1], octets[2], octets[3]),
        Address::V6 { segments: s } => {
            let front_empty = s[0] == 0 && s[1] == 0 && s[2] == 0 && s[3] == 0 && s[4] == 0 && s[5]
                == 0 && s[6] == 0;
            let mapped = s[0] == 0 && s[1] == 0 && s[2] == 0 && s[3] == 0 && s[4] == 0 && s[5]
                == 0xffff;
            (front_empty && (s[7] == 0 || s[7] == 1)) || s[0] >= 0xff00 || (0xfc00 <= s[0] && s[0]
                <= 0xfdff) || (0xfe80 <= s[0] && s[0] <= 0xfebf) || (mapped && v4_is_blocked(
                (s[6] / 256) as u8,
                (s[6] % 256) as u8,
                (s[7] / 256) as u8,
                (s[7] % 256) as u8,
            ))
        },
    }
}

/// An address that stands for one of the older kind is judged by that one.
pub proof fn law_mapped_address_is_judged_by_its_v4(s: Seq<u16>)
    requires
        s.len() == 8,
        embedded_v4(s),
    ensures
        blocked_v6(s) == blocked_v4(
            (s[6] / 256) as u8,
            (s[6] % 256) as u8,
            (s[7] / 256) as u8,
            (s[7] % 256) as u8,
        ),
{
}

// ---------------------------------------------------------------------------
// Targets
// ---------------------------------------------------------------------------

/// A host without the brackets around a literal address.
pub open spec fn bare_host(host: Seq<char>) -> Seq<char> {
    if host.len() >= 2 && host[0] == '[' && host.last() == ']' {
        host.subrange(1, host.len() - 1)
    } else {
        host
    }
}

/// Where a request goes: the host and the port of its URL, or that it has no
/// host. A URL without a port of its own or of its scheme goes to 443.
pub open spec fn target_model(parts: Option<(Option<Seq<char>>, Option<u16>)>) -> Option<
    (Seq<char>, u16),
> {
    match parts {
        Some((Some(host), port)) => if host.len() == 0 {
            None
        } else {
            Some(
                (
                    bare_host(host),
                    match port {
                        Some(p) => p,
                        None => 443,
                    },
                ),
            )
        },
        _ => None,
    }
}

/// Where a request goes.
pub struct Target {
    pub host: String,
    pub port: u16,
}

fn strip_brackets(host: &str) -> (r: String)
    ensures
        r@ == bare_host(host@),
{
    let v = chars_of(host);
    let n: usize = v.len();
    if n >= 2 && v[0] == '[' && v[n - 1] == ']' {
        text_of(&v, 1, n - 1)
    } else {
        host.to_owned()
    }
}

/// Where the request to a URL goes, from the URL's host and port.
pub fn target_of_parts(parts: Option<(Option<String>, Option<u16>)>) -> (r: Result<Target, i32>)
    ensures
        match r {
            Ok(t) => target_model(crate::outside::parts_view(parts)) == Some((t.host@, t.port)),
            Err(code) => code == ERR_URL && target_model(crate::outside::parts_view(parts)) is None,
        },
{
    match parts {
        Some((Some(host), port)) => {
            if host.as_str().is_empty() {
                return Err(ERR_URL);
            }
            let port: u16 = match port {
                Some(p) => p,
                None => 443,
            };
            Ok(Target { host: strip_brackets(host.as_str()), port })
        },
        _ => Err(ERR_URL),
    }
}

/// Where the request to a URL goes.
pub fn target_of(url: &str) -> (r: Result<Target, i32>)
    ensures
        match r {
            Ok(t) => target_model(url_parts(url@)) == Some((t.host@, t.port)),
            Err(code) => code == ERR_URL && target_model(url_parts(url@)) is None,
        },
{
    target_of_parts(url_target(url))
}

/// One of the addresses may not be reached.
pub open spec fn any_blocked(addrs: Seq<Address>) -> bool {
    exists|i: int| 0 <= i < addrs.len() && blocked(#[trigger] addrs[i])
}

/// Whether one of the addresses of a host may not be reached.
pub fn some_address_is_blocked(addrs: &Vec<Address>) -> (r: bool)
    ensures
        r == any_blocked(addrs@),
{
    let mut i: usize = 0;
    while i < addrs.len()
        invariant
            i <= addrs@.len(),
            forall|j: int| 0 <= j < i ==> !blocked(#[trigger] addrs@[j]),
        decreases addrs@.len() - i,
    {
        if address_is_blocked(addrs[i]) {
            assert(blocked(addrs@[i as int]));
            return true;
        }
        i = i + 1;
    }
    false
}

// ---------------------------------------------------------------------------
// Fetching
// ---------------------------------------------------------------------------

/// Where a fetch stands. The name of each state says what has to happen next.
pub enum Fetch {
    /// See whether the host is a literal address.
    Check { host: String, port: u16, cap: usize },
    /// Look the host up.
    Resolve { host: String, port: u16, cap: usize },
    /// Send the request.
    Send { cap: usize },
    /// Read the next piece of the answer's body.
    Read { cap: usize, success: bool, body: Vec<u8> },
    /// The body, or the code of what went wrong.
    Done { result: Result<Vec<u8>, i32> },
}

/// What happened.
pub enum FetchEvent {
    /// The host is this literal address, or is none.
    Literal(Option<Address>),
    /// The host has these addresses, or could not be looked up in time.
    Resolved(Option<Vec<Address>>),
    /// The answer's status is a success or not, or there is no answer.
    Answered(Option<bool>),
    /// A piece of the body.
    Piece(Vec<u8>),
    /// The body's end.
    End,
    /// The body could not be read.
    Broken,
}

/// What a finished fetch says.
pub open spec fn fetch_result(success: bool, body: Seq<u8>) -> Result<Seq<u8>, i32> {
    if success {
        Ok(body)
    } else {
        Err(ERR_STATUS)
    }
}

/// What a state of a fetch says.
pub ghost enum FetchModel {
    Check { host: Seq<char>, port: u16, cap: usize },
    Resolve { host: Seq<char>, port: u16, cap: usize },
    Send { cap: usize },
    Read { cap: usize, success: bool, body: Seq<u8> },
    Done { result: Result<Seq<u8>, i32> },
}

impl View for Fetch {
    type V = FetchModel;

    open spec fn view(&self) -> FetchModel {
        match self {
            Fetch::Check { host, port, cap } => FetchModel::Check {
                host: host@,
                port: *port,
                cap: *cap,
            },
            Fetch::Resolve { host, port, cap } => FetchModel::Resolve {
                host: host@,
                port: *port,
                cap: *cap,
            },
            Fetch::Send { cap } => FetchModel::Send { cap: *cap },
            Fetch::Read { cap, success, body } => FetchModel::Read {
                cap: *cap,
                success: *success,
                body: body@,
            },
            Fetch::Done { result } => FetchModel::Done {
                result: match result {
                    Ok(body) => Ok(body@),
                    Err(code) => Err(*code),
                },
            },
        }
    }
}

/// Reading goes on until the bound is reached.
pub open spec fn reading(cap: usize, success: bool, body: Seq<u8>) -> FetchModel {
    if body.len() < cap {
        FetchModel::Read { cap, success, body }
    } else {
        FetchModel::Done { result: fetch_result(success, body) }
    }
}

/// A body with one more piece, cut at the bound.
pub open spec fn extended(body: Seq<u8>, piece: Seq<u8>, cap: usize) -> Seq<u8> {
    let all = body + piece;
    if all.len() <= cap {
        all
    } else {
        all.take(cap as int)
    }
}

/// Where a fetch starts: with a URL that has a host, or at its end.
pub open spec fn fetch_started(
    parts: Option<(Option<Seq<char>>, Option<u16>)>,
    cap: usize,
) -> FetchModel {
    match target_model(parts) {
        Some((host, port)) => FetchModel::Check { host, port, cap },
        None => FetchModel::Done { result: Err(ERR_URL) },
    }
}

/// Where a fetch stands after something happened. An event that does not fit
/// the state changes nothing.
pub open spec fn fetch_next(state: FetchModel, event: FetchEvent) -> FetchModel {
    match (state, event) {
        (FetchModel::Check { host, port, cap }, FetchEvent::Literal(None)) => FetchModel::Resolve {
            host,
            port,
            cap,
        },
        (FetchModel::Check { cap, .. }, FetchEvent::Literal(Some(addr))) => if blocked(addr) {
            FetchModel::Done { result: Err(ERR_SSRF) }
        } else {
            FetchModel::Send { cap }
        },
        (FetchModel::Resolve { .. }, FetchEvent::Resolved(None)) => FetchModel::Done {
            result: Err(ERR_NETWORK),
        },
        (FetchModel::Resolve { cap, .. }, FetchEvent::Resolved(Some(addrs))) => if any_blocked(
            addrs@,
        ) {
            FetchModel::Done { result: Err(ERR_SSRF) }
        } else {
            FetchModel::Send { cap }
        },
        (FetchModel::Send { .. }, FetchEvent::Answered(None)) => FetchModel::Done {
            result: Err(ERR_NETWORK),
        },
        (FetchModel::Send { cap }, FetchEvent::Answered(Some(success))) => reading(
            cap,
            success,
            Seq::empty(),
        ),
        (FetchModel::Read { cap, success, body }, FetchEvent::Piece(piece)) => reading(
            cap,
            success,
            extended(body, piece@, cap),
        ),
        (FetchModel::Read { success, body, .. }, FetchEvent::End) => FetchModel::Done {
            result: fetch_result(success, body),
        },
        (FetchModel::Read { .. }, FetchEvent::Broken) => FetchModel::Done {
            result: Err(ERR_NETWORK),
        },
        _ => state,
    }
}

fn finished(success: bool, body: Vec<u8>) -> (r: Fetch)
    ensures
        r@ == (FetchModel::Done { result: fetch_result(success, body@) }),
{
    if success {
        Fetch::Done { result: Ok(body) }
    } else {
        Fetch::Done { result: Err(ERR_STATUS) }
    }
}

fn read_on(cap: usize, success: bool, body: Vec<u8>) -> (r: Fetch)
    ensures
        r@ == reading(cap, success, body@),
{
    if body.len() < cap {
        Fetch::Read { cap, success, body }
    } else {
        finished(success, body)
    }
}

/// Starts a fetch of at most `cap` bytes.
pub fn plugin_http_fetch(url: &str, cap: usize) -> (r: Fetch)
    ensures
        r@ == fetch_started(url_parts(url@), cap),
{
    start_fetch(target_of(url), cap)
}

/// Starts a fetch to a target.
pub fn start_fetch(target: Result<Target, i32>, cap: usize) -> (r: Fetch)
    ensures
        r@ == (match target {
            Ok(t) => FetchModel::Check { host: t.host@, port: t.port, cap },
            Err(code) => FetchModel::Done { result: Err(code) },
        }),
{
    match target {
        Ok(t) => Fetch::Check { host: t.host, port: t.port, cap },
        Err(code) => Fetch::Done { result: Err(code) },
    }
}

impl Fetch {
    /// Takes in what happened.
    pub fn next(self, event: FetchEvent) -> (r: Fetch)
        ensures
            r@ == fetch_next(self@, event),
    {
        match self {
            Fetch::Check { host, port, cap } => match event {
                FetchEvent::Literal(None) => Fetch::Resolve { host, port, cap },
                FetchEvent::Literal(Some(addr)) => {
                    if address_is_blocked(addr) {
                        Fetch::Done { result: Err(ERR_SSRF) }
                    } else {
                        Fetch::Send { cap }
                    }
                },
                _ => Fetch::Check { host, port, cap },
            },
            Fetch::Resolve { host, port, cap } => match event {
                FetchEvent::Resolved(None) => Fetch::Done { result: Err(ERR_NETWORK) },
                FetchEvent::Resolved(Some(addrs)) => {
                    if some_address_is_blocked(&addrs) {
                        Fetch::Done { result: Err(ERR_SSRF) }
                    } else {
                        Fetch::Send { cap }
                    }
                },
                _ => Fetch::Resolve { host, port, cap },
            },
            Fetch::Send { cap } => match event {
                FetchEvent::Answered(None) => Fetch::Done { result: Err(ERR_NETWORK) },
                FetchEvent::Answered(Some(success)) => {
                    let body: Vec<u8> = Vec::new();
                    assert(body@ =~= Seq::<u8>::empty());
                    read_on(cap, success, body)
                },
                _ => Fetch::Send { cap },
            },
            Fetch::Read { cap, success, body } => match event {
                FetchEvent::Piece(piece) => {
                    let mut body = body;
                    let mut piece = piece;
                    let ghost all = body@ + piece@;
                    body.append(&mut piece);
                    if body.len() > cap {
                        body.truncate(cap);
                        assert(body@ =~= all.take(cap as int));
                    }
                    read_on(cap, success, body)
                },
                FetchEvent::End => finished(success, body),
                FetchEvent::Broken => Fetch::Done { result: Err(ERR_NETWORK) },
                _ => Fetch::Read { cap, success, body },
            },
            Fetch::Done { result } => Fetch::Done { result },
        }
    }
}

/// The milliseconds that a request may take when `left_ms` are left of the
/// call: a fixed time would let a request outlive its call.
pub fn request_timeout_ms(left_ms: u64) -> (r: u64)
    ensures
        r == (if left_ms <= HTTP_TIMEOUT_MS {
            left_ms
        } else {
            HTTP_TIMEOUT_MS
        }),
{
    if left_ms <= HTTP_TIMEOUT_MS {
        left_ms
    } else {
        HTTP_TIMEOUT_MS
    }
}

/// The part in front of the first `/`.
pub open spec fn first_part(s: Seq<char>) -> Seq<char>
    decreases s.len(),
{
    if s.len() == 0 || s[0] == '/' {
        Seq::empty()
    } else {
        seq![s[0]] + first_part(s.skip(1))
    }
}

/// The part of a text behind `n` slashes, up to the next one. Empty where there
/// are fewer.
pub open spec fn part_behind(s: Seq<char>, n: nat) -> Seq<char>
    decreases s.len(),
{
    if n == 0 {
        first_part(s)
    } else if s.len() == 0 {
        Seq::empty()
    } else if s[0] == '/' {
        part_behind(s.skip(1), (n - 1) as nat)
    } else {
        part_behind(s.skip(1), n)
    }
}

/// The host of a URL for the hub's own log. The rest of a URL may hold a secret
/// and is not logged.
pub fn log_host(url: &str) -> (r: String)
    ensures
        r@ == part_behind(url@, 2),
{
    let v = chars_of(url);
    let mut i: usize = 0;
    let mut n: u8 = 2;
    assert(v@.skip(0) =~= url@);
    while n > 0 && i < v.len()
        invariant
            i <= v@.len(),
            part_behind(v@.skip(i as int), n as nat) == part_behind(url@, 2),
        decreases v@.len() - i,
    {
        assert(v@.skip(i as int).skip(1) =~= v@.skip(i + 1));
        assert(v@.skip(i as int)[0] == v@[i as int]);
        if v[i] == '/' {
            n = n - 1;
        }
        i = i + 1;
    }
    let mut r = String::new();
    if n > 0 {
        assert(v@.skip(i as int).len() == 0);
        return r;
    }
    let ghost whole = first_part(v@.skip(i as int));
    while i < v.len() && v[i] != '/'
        invariant
            i <= v@.len(),
            whole == r@ + first_part(v@.skip(i as int)),
        decreases v@.len() - i,
    {
        assert(v@.skip(i as int).skip(1) =~= v@.skip(i + 1));
        assert(v@.skip(i as int)[0] == v@[i as int]);
        let ghost before = r@;
        r.push(v[i]);
        assert(r@ + first_part(v@.skip(i + 1)) =~= before + first_part(v@.skip(i as int)));
        i = i + 1;
    }
    assert(first_part(v@.skip(i as int)) =~= Seq::<char>::empty());
    assert(r@ =~= whole);
    r
}

// ---------------------------------------------------------------------------
// Laws
// ---------------------------------------------------------------------------

/// The pieces of a body one after the other.
pub open spec fn concatenated(pieces: Seq<Seq<u8>>) -> Seq<u8>
    decreases pieces.len(),
{
    if pieces.len() == 0 {
        Seq::empty()
    } else {
        concatenated(pieces.drop_last()) + pieces.last()
    }
}

/// What is held of a body after its pieces came in.
pub open spec fn taken(pieces: Seq<Seq<u8>>, cap: usize) -> Seq<u8>
    decreases pieces.len(),
{
    if pieces.len() == 0 {
        Seq::empty()
    } else {
        extended(taken(pieces.drop_last(), cap), pieces.last(), cap)
    }
}

/// Taking a body piece by piece gives what taking it whole and cutting it would
/// give, and never holds more than the bound.
pub proof fn law_bounded_download(pieces: Seq<Seq<u8>>, cap: usize)
    ensures
        taken(pieces, cap).len() <= cap,
        taken(pieces, cap) == (if concatenated(pieces).len() <= cap {
            concatenated(pieces)
        } else {
            concatenated(pieces).take(cap as int)
        }),
    decreases pieces.len(),
{
    if pieces.len() > 0 {
        law_bounded_download(pieces.drop_last(), cap);
        let front = concatenated(pieces.drop_last());
        let all = concatenated(pieces);
        if all.len() > cap {
            assert(taken(pieces, cap) =~= all.take(cap as int));
        }
    }
}

/// A fetch never comes to sending a request to an address that plugins may not
/// reach: a blocked address ends it.
pub proof fn law_blocked_target_is_refused(state: FetchModel, event: FetchEvent)
    requires
        state is Check || state is Resolve,
    ensures
        fetch_next(state, event) is Send ==> (event matches FetchEvent::Literal(Some(addr))
            && !blocked(addr)) || (event matches FetchEvent::Resolved(Some(addrs)) && !any_blocked(
            addrs@,
        )),
        (state is Check && (event matches FetchEvent::Literal(Some(addr)) && blocked(addr)))
            ==> fetch_next(state, event) == (FetchModel::Done { result: Err(ERR_SSRF) }),
        (state is Resolve && (event matches FetchEvent::Resolved(Some(addrs)) && any_blocked(
            addrs@,
        )))
            ==> fetch_next(state, event) == (FetchModel::Done { result: Err(ERR_SSRF) }),
{
}

} // verus!
