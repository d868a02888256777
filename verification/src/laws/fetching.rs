//! Requests of plugins: which addresses they may reach, how a fetch goes from
//! one step to the next, and what of a URL is logged.

use vstd::prelude::*;

use crate::plugin::http::{
    blocked, fetch_next, fetch_started, part_behind, target_model, Address, FetchEvent, FetchModel,
};

verus! {

broadcast use vstd::seq_lib::group_seq_properties;

/// An address of four bytes as one number.
pub open spec fn number_of(octets: [u8; 4]) -> int {
    octets@[0] * 0x1000000 + octets@[1] * 0x10000 + octets@[2] * 0x100 + octets@[3]
}

/// A number lies in the network of `size` addresses from `a.b.c.0` on.
pub open spec fn in_network(n: int, a: int, b: int, c: int, size: int) -> bool {
    let first = a * 0x1000000 + b * 0x10000 + c * 0x100;
    first <= n < first + size
}

/// A plugin may reach every address of four bytes but those of the private
/// networks, the loopback, the links, the shared and the benchmark networks,
/// the documentation, the protocol assignments, the groups, the reserved rest
/// and the unspecified address.
pub proof fn law_blocked_networks(octets: [u8; 4])
    ensures
        blocked(Address::V4 { octets }) <==> {
            let n = number_of(octets);
            ||| n == 0
            ||| in_network(n, 10, 0, 0, 0x1000000)
            ||| in_network(n, 100, 64, 0, 0x400000)
            ||| in_network(n, 127, 0, 0, 0x1000000)
            ||| in_network(n, 169, 254, 0, 0x10000)
            ||| in_network(n, 172, 16, 0, 0x100000)
            ||| in_network(n, 192, 0, 0, 0x100)
            ||| in_network(n, 192, 0, 2, 0x100)
            ||| in_network(n, 192, 168, 0, 0x10000)
            ||| in_network(n, 198, 18, 0, 0x20000)
            ||| in_network(n, 198, 51, 100, 0x100)
            ||| in_network(n, 203, 0, 113, 0x100)
            ||| n >= 224 * 0x1000000
        },
{
}

/// Of the addresses of eight groups, those are out of reach whose upper bits
/// make them unique local, of one link or of a group, the unspecified and the
/// loopback address, and those that stand for an address of four bytes that is
/// out of reach.
pub proof fn law_blocked_long_addresses(segments: [u16; 8], octets: [u8; 4])
    requires
        octets@[0] == segments@[6] / 256,
        octets@[1] == segments@[6] % 256,
        octets@[2] == segments@[7] / 256,
        octets@[3] == segments@[7] % 256,
    ensures
        blocked(Address::V6 { segments }) <==> {
            ||| segments@[0] & 0xfe00 == 0xfc00
            ||| segments@[0] & 0xffc0 == 0xfe80
            ||| segments@[0] & 0xff00 == 0xff00
            ||| (forall|i: int| 0 <= i < 7 ==> #[trigger] segments@[i] == 0) && segments@[7] <= 1
            ||| (forall|i: int| 0 <= i < 5 ==> #[trigger] segments@[i] == 0) && segments@[5]
                == 0xffff && blocked(Address::V4 { octets })
        },
{
    let s = segments@[0];
    assert(s & 0xfe00 == 0xfc00 <==> 0xfc00 <= s <= 0xfdff) by (bit_vector);
    assert(s & 0xffc0 == 0xfe80 <==> 0xfe80 <= s <= 0xfebf) by (bit_vector);
    assert(s & 0xff00 == 0xff00 <==> 0xff00 <= s) by (bit_vector);
}

/// Where a request goes: to the host of the URL, out of its brackets where it
/// has any, and to the URL's port or 443. A URL that cannot be read, or has no
/// host, is refused with -2.
pub proof fn law_target(host: Seq<char>, port: Option<u16>, cap: usize)
    ensures
        fetch_started(None, cap) == (FetchModel::Done { result: Err(-2i32) }),
        fetch_started(Some((None, port)), cap) == (FetchModel::Done { result: Err(-2i32) }),
        fetch_started(Some((Some(Seq::<char>::empty()), port)), cap) == (FetchModel::Done {
            result: Err(-2i32),
        }),
        host.len() > 0 && !(host[0] == '[' && host.last() == ']' && host.len() > 1)
            ==> fetch_started(Some((Some(host), port)), cap) == (FetchModel::Check {
            host,
            port: if port is Some {
                port->0
            } else {
                443
            },
            cap,
        }),
        fetch_started(Some((Some(seq!['['] + host + seq![']']), port)), cap) == (
        FetchModel::Check {
            host,
            port: if port is Some {
                port->0
            } else {
                443
            },
            cap,
        }),
{
    let bracketed = seq!['['] + host + seq![']'];
    assert(bracketed.subrange(1, bracketed.len() - 1) =~= host);
    assert(target_model(Some((Some(bracketed), port))) is Some);
}

/// A literal address is sent to or refused with -9 by itself; any other host is
/// looked up.
pub proof fn law_literal_hosts(host: Seq<char>, port: u16, cap: usize, addr: Address)
    ensures
        ({
            let check = FetchModel::Check { host, port, cap };
            &&& fetch_next(check, FetchEvent::Literal(None)) == (FetchModel::Resolve {
                host,
                port,
                cap,
            })
            &&& !blocked(addr) ==> fetch_next(check, FetchEvent::Literal(Some(addr))) == (
            FetchModel::Send { cap })
            &&& blocked(addr) ==> fetch_next(check, FetchEvent::Literal(Some(addr))) == (
            FetchModel::Done { result: Err(-9i32) })
        }),
{
}

/// A host that was looked up is sent to where none of its addresses is out of
/// reach, however many it has; refused with -9 where one is; and given up with
/// -4 where the look-up failed.
pub proof fn law_resolved_hosts(host: Seq<char>, port: u16, cap: usize, addrs: Vec<Address>)
    ensures
        ({
            let resolve = FetchModel::Resolve { host, port, cap };
            &&& (forall|i: int| 0 <= i < addrs@.len() ==> !blocked(#[trigger] addrs@[i]))
                ==> fetch_next(resolve, FetchEvent::Resolved(Some(addrs))) == (FetchModel::Send {
                cap,
            })
            &&& (exists|i: int| 0 <= i < addrs@.len() && blocked(#[trigger] addrs@[i]))
                ==> fetch_next(resolve, FetchEvent::Resolved(Some(addrs))) == (FetchModel::Done {
                result: Err(-9i32),
            })
            &&& fetch_next(resolve, FetchEvent::Resolved(None)) == (FetchModel::Done {
                result: Err(-4i32),
            })
        }),
{
}

/// An answer is read from its beginning up to the bound; without an answer the
/// fetch ends with -4. A bound of 0 leaves nothing to read.
pub proof fn law_answers(cap: usize, success: bool)
    ensures
        fetch_next(FetchModel::Send { cap }, FetchEvent::Answered(None)) == (FetchModel::Done {
            result: Err(-4i32),
        }),
        cap > 0 ==> fetch_next(FetchModel::Send { cap }, FetchEvent::Answered(Some(success))) == (
        FetchModel::Read { cap, success, body: Seq::empty() }),
        fetch_next(FetchModel::Send { cap: 0 }, FetchEvent::Answered(Some(true))) == (
        FetchModel::Done { result: Ok(Seq::empty()) }),
        fetch_next(FetchModel::Send { cap: 0 }, FetchEvent::Answered(Some(false))) == (
        FetchModel::Done { result: Err(-5i32) }),
{
}

/// A piece of the body goes behind what was read. Where that stays below the
/// bound, reading goes on; else the fetch ends with as much as the bound allows,
/// or with -5 where the answer is no success. The end of the body ends it too,
/// and a body that breaks off ends it with -4.
pub proof fn law_bodies(cap: usize, success: bool, body: Seq<u8>, piece: Vec<u8>)
    requires
        body.len() < cap,
    ensures
        ({
            let read = FetchModel::Read { cap, success, body };
            let all = body + piece@;
            &&& all.len() < cap ==> fetch_next(read, FetchEvent::Piece(piece)) == (
            FetchModel::Read { cap, success, body: all })
            &&& all.len() >= cap && success ==> fetch_next(read, FetchEvent::Piece(piece)) == (
            FetchModel::Done { result: Ok(all.take(cap as int)) })
            &&& all.len() >= cap && !success ==> fetch_next(read, FetchEvent::Piece(piece)) == (
            FetchModel::Done { result: Err(-5i32) })
            &&& fetch_next(read, FetchEvent::End) == (FetchModel::Done {
                result: if success {
                    Ok(body)
                } else {
                    Err(-5i32)
                },
            })
            &&& fetch_next(read, FetchEvent::Broken) == (FetchModel::Done { result: Err(-4i32) })
        }),
{
    let all = body + piece@;
    if all.len() == cap {
        assert(all.take(cap as int) =~= all);
    }
}

/// A fetch that is done stays done, and no state moves on what does not belong
/// to it.
pub proof fn law_stray_events(state: FetchModel, event: FetchEvent)
    requires
        state is Done || (state is Check && !(event is Literal)) || (state is Resolve && !(
        event is Resolved)) || (state is Send && !(event is Answered)) || (state is Read && !(
        event is Piece || event is End || event is Broken)),
    ensures
        fetch_next(state, event) == state,
{
}

/// What is logged of a URL is the part between the second and the third slash,
/// or up to the end where there is no third one: never the path behind it.
pub proof fn law_logged_host(
    scheme: Seq<char>,
    gap: Seq<char>,
    host: Seq<char>,
    path: Seq<char>,
)
    requires
        !scheme.contains('/'),
        !gap.contains('/'),
        !host.contains('/'),
    ensures
        part_behind(scheme + seq!['/'] + gap + seq!['/'] + host + seq!['/'] + path, 2) == host,
        part_behind(scheme + seq!['/'] + gap + seq!['/'] + host, 2) == host,
        part_behind(scheme + seq!['/'] + gap, 2) == Seq::<char>::empty(),
        part_behind(scheme, 2) == Seq::<char>::empty(),
{
    let tail = host + seq!['/'] + path;
    lemma_first_part(host, path);
    assert(scheme + seq!['/'] + gap + seq!['/'] + host + seq!['/'] + path =~= scheme + seq!['/']
        + (gap + seq!['/'] + tail));
    lemma_behind(scheme, gap + seq!['/'] + tail, 2);
    lemma_behind(gap, tail, 1);
    assert(scheme + seq!['/'] + gap + seq!['/'] + host =~= scheme + seq!['/'] + (gap + seq!['/']
        + host));
    lemma_behind(scheme, gap + seq!['/'] + host, 2);
    lemma_behind(gap, host, 1);
    lemma_behind(scheme, gap, 2);
    lemma_too_few(gap, 1);
    lemma_too_few(scheme, 2);
}

proof fn lemma_first_part(host: Seq<char>, path: Seq<char>)
    requires
        !host.contains('/'),
    ensures
        part_behind(host + seq!['/'] + path, 0) == host,
        part_behind(host, 0) == host,
    decreases host.len(),
{
    let whole = host + seq!['/'] + path;
    if host.len() > 0 {
        assert(host.contains(host[0]));
        assert forall|c: char| host.skip(1).contains(c) implies host.contains(c) by {
            let i = choose|i: int| 0 <= i < host.skip(1).len() && host.skip(1)[i] == c;
            assert(host[i + 1] == c);
        }
        lemma_first_part(host.skip(1), path);
        assert(whole.skip(1) =~= host.skip(1) + seq!['/'] + path);
        assert(seq![host[0]] + host.skip(1) =~= host);
        assert(part_behind(whole, 0) == crate::plugin::http::first_part(whole));
        assert(whole[0] == host[0]);
    } else {
        assert(whole[0] == '/');
        assert(part_behind(whole, 0) =~= host);
    }
}

proof fn lemma_behind(front: Seq<char>, rest: Seq<char>, n: nat)
    requires
        !front.contains('/'),
        n > 0,
    ensures
        part_behind(front + seq!['/'] + rest, n) == part_behind(rest, (n - 1) as nat),
    decreases front.len(),
{
    let whole = front + seq!['/'] + rest;
    if front.len() > 0 {
        assert(front.contains(front[0]));
        assert forall|c: char| front.skip(1).contains(c) implies front.contains(c) by {
            let i = choose|i: int| 0 <= i < front.skip(1).len() && front.skip(1)[i] == c;
            assert(front[i + 1] == c);
        }
        lemma_behind(front.skip(1), rest, n);
        assert(whole.skip(1) =~= front.skip(1) + seq!['/'] + rest);
        assert(whole[0] == front[0]);
    } else {
        assert(whole[0] == '/');
        assert(whole.skip(1) =~= rest);
    }
}

proof fn lemma_too_few(s: Seq<char>, n: nat)
    requires
        !s.contains('/'),
        n > 0,
    ensures
        part_behind(s, n) == Seq::<char>::empty(),
    decreases s.len(),
{
    if s.len() > 0 {
        assert(s.contains(s[0]));
        assert forall|c: char| s.skip(1).contains(c) implies s.contains(c) by {
            let i = choose|i: int| 0 <= i < s.skip(1).len() && s.skip(1)[i] == c;
            assert(s[i + 1] == c);
        }
        lemma_too_few(s.skip(1), n);
    }
}

} // verus!
