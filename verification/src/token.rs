//! Stateless retry tokens.
//!
//! A token is the ASCII string `quiche`, then the octets of the client's IP
//! address, then the original destination connection ID that the client chose.
//! It carries no cryptographic protection.
use vstd::prelude::*;

use crate::address::{IpAddress, SocketAddress};
use crate::buf::{append_bytes, copy_bytes, matches_at};
use crate::packet::PacketHeader;

verus! {

/// The six bytes `quiche` that open every token.
pub open spec fn token_prefix() -> Seq<u8> {
    seq![0x71u8, 0x75u8, 0x69u8, 0x63u8, 0x68u8, 0x65u8]
}

/// The token minted for a client at `ip` whose first packet carried `dcid`.
pub open spec fn spec_mint_token(dcid: Seq<u8>, ip: IpAddress) -> Seq<u8> {
    token_prefix() + ip.spec_octets() + dcid
}

/// What validation of `token`, presented by a client at `ip`, gives back:
/// the bytes after the prefix and the address octets, when the token opens
/// with both; nothing otherwise.
pub open spec fn spec_validate_token(ip: IpAddress, token: Seq<u8>) -> Option<Seq<u8>> {
    let head = token_prefix() + ip.spec_octets();
    if head.len() <= token.len() && token.take(head.len() as int) == head {
        Some(token.skip(head.len() as int))
    } else {
        None
    }
}

fn token_prefix_bytes() -> (res: Vec<u8>)
    ensures
        res@ == token_prefix(),
{
    let mut res: Vec<u8> = Vec::new();
    res.push(0x71u8);
    res.push(0x75u8);
    res.push(0x69u8);
    res.push(0x63u8);
    res.push(0x68u8);
    res.push(0x65u8);
    assert(res@ =~= token_prefix());
    res
}

/// Generates a stateless retry token for the client at `src` whose packet
/// carried the header `hdr`.
pub fn mint_token(hdr: &PacketHeader, src: &SocketAddress) -> (token: Vec<u8>)
    ensures
        token@ == spec_mint_token(hdr.dcid@, src.ip),
        token@ == seq![0x71u8, 0x75u8, 0x69u8, 0x63u8, 0x68u8, 0x65u8] + src.ip.spec_octets()
            + hdr.dcid@,
{
    let mut token = token_prefix_bytes();
    let addr = src.ip.octets();
    append_bytes(&mut token, addr.as_slice());
    append_bytes(&mut token, hdr.dcid.as_slice());
    token
}

/// Validates a stateless retry token presented by the client at `src`, and
/// gives back the original destination connection ID that it carries.
pub fn validate_token(src: &SocketAddress, token: &[u8]) -> (odcid: Option<Vec<u8>>)
    ensures
        match odcid {
            Some(d) => spec_validate_token(src.ip, token@) == Some(d@),
            None => spec_validate_token(src.ip, token@) is None,
        },
        ({
            let head = seq![0x71u8, 0x75u8, 0x69u8, 0x63u8, 0x68u8, 0x65u8] + src.ip.spec_octets();
            &&& (head.len() <= token@.len() && token@.take(head.len() as int) == head) ==> (odcid
                matches Some(d) && d@ == token@.skip(head.len() as int))
            &&& !(head.len() <= token@.len() && token@.take(head.len() as int) == head) ==> odcid
                is None
        }),
{
    let prefix = token_prefix_bytes();
    if token.len() < 6 {
        return None;
    }
    if !matches_at(token, 0, prefix.as_slice()) {
        proof {
            let head = token_prefix() + src.ip.spec_octets();
            if head.len() <= token@.len() && token@.take(head.len() as int) == head {
                assert(token@.subrange(0, 6) == head.take(6));
                assert(head.take(6) =~= token_prefix());
            }
        }
        return None;
    }
    let addr = src.ip.octets();
    if token.len() - 6 < addr.len() || !matches_at(token, 6, addr.as_slice()) {
        proof {
            let head = token_prefix() + src.ip.spec_octets();
            if head.len() <= token@.len() && token@.take(head.len() as int) == head {
                assert(token@.subrange(6, 6 + addr@.len() as int) =~= head.subrange(6, head.len() as int));
                assert(head.subrange(6, head.len() as int) =~= addr@);
            }
        }
        return None;
    }
    let start = 6 + addr.len();
    let odcid = copy_bytes(&token[start..token.len()]);
    proof {
        let head = token_prefix() + src.ip.spec_octets();
        assert(token@.take(head.len() as int) =~= token@.subrange(0, 6) + token@.subrange(6, start as int));
    }
    Some(odcid)
}

/// The octets of an address are its four (IPv4) or sixteen (IPv6) bytes, as given.
pub proof fn lemma_octets(ip: IpAddress)
    ensures
        ip matches IpAddress::V4(a) ==> ip.spec_octets() == a@ && ip.spec_octets().len() == 4,
        ip matches IpAddress::V6(a) ==> ip.spec_octets() == a@ && ip.spec_octets().len() == 16,
{
}

/// The layout of a token: the six bytes `quiche`, the address octets, then
/// the destination ID unchanged, so each part is found at its place.
pub proof fn lemma_token_layout(dcid: Seq<u8>, ip: IpAddress)
    ensures
        ({
            let t = spec_mint_token(dcid, ip);
            let n = ip.spec_octets().len() as int;
            &&& t == seq![0x71u8, 0x75u8, 0x69u8, 0x63u8, 0x68u8, 0x65u8] + ip.spec_octets() + dcid
            &&& t.len() == 6 + n + dcid.len()
            &&& t.take(6) == seq![0x71u8, 0x75u8, 0x69u8, 0x63u8, 0x68u8, 0x65u8]
            &&& t.subrange(6, 6 + n) == ip.spec_octets()
            &&& t.skip(6 + n) == dcid
            &&& forall|i: int| 0 <= i < dcid.len() ==> t[6 + n + i] == dcid[i]
        }),
{
    let t = spec_mint_token(dcid, ip);
    let n = ip.spec_octets().len() as int;
    assert(token_prefix() =~= seq![0x71u8, 0x75u8, 0x69u8, 0x63u8, 0x68u8, 0x65u8]);
    assert(t.take(6) =~= token_prefix());
    assert(t.subrange(6, 6 + n) =~= ip.spec_octets());
    assert(t.skip(6 + n) =~= dcid);
}

/// Validation gives back exactly the bytes after the prefix `quiche` and the
/// address octets, when a token opens with both, and refuses it otherwise.
pub proof fn lemma_validate_gives_rest(ip: IpAddress, token: Seq<u8>)
    ensures
        ({
            let head = seq![0x71u8, 0x75u8, 0x69u8, 0x63u8, 0x68u8, 0x65u8] + ip.spec_octets();
            &&& (head.len() <= token.len() && token.take(head.len() as int) == head)
                ==> spec_validate_token(ip, token) == Some(token.skip(head.len() as int))
            &&& !(head.len() <= token.len() && token.take(head.len() as int) == head)
                ==> spec_validate_token(ip, token) is None
        }),
{
    assert(token_prefix() =~= seq![0x71u8, 0x75u8, 0x69u8, 0x63u8, 0x68u8, 0x65u8]);
}

/// A token minted for a client is accepted when that client presents it,
/// and validation gives back the connection ID it was minted for.
pub proof fn lemma_token_round_trip(dcid: Seq<u8>, ip: IpAddress)
    ensures
        spec_validate_token(ip, spec_mint_token(dcid, ip)) == Some(dcid),
{
    let head = token_prefix() + ip.spec_octets();
    let token = spec_mint_token(dcid, ip);
    assert(token.take(head.len() as int) =~= head);
    assert(token.skip(head.len() as int) =~= dcid);
}

/// Validation accepts only minted tokens: whatever it accepts from a client
/// is exactly the token minted for that client and the connection ID given back.
pub proof fn lemma_token_accepted_only_if_minted(ip: IpAddress, token: Seq<u8>)
    ensures
        spec_validate_token(ip, token) matches Some(d) ==> token == spec_mint_token(d, ip),
{
    let head = token_prefix() + ip.spec_octets();
    if head.len() <= token.len() && token.take(head.len() as int) == head {
        assert(token =~= head + token.skip(head.len() as int));
    }
}

/// A token is bound to the address it was minted for: another address of
/// the same family that presents it is refused.
pub proof fn lemma_token_bound_to_address(dcid: Seq<u8>, minted_for: IpAddress, presented_by: IpAddress)
    requires
        minted_for != presented_by,
        (minted_for is V4) == (presented_by is V4),
    ensures
        spec_validate_token(presented_by, spec_mint_token(dcid, minted_for)) is None,
{
    broadcast use vstd::array::group_array_axioms;
    let token = spec_mint_token(dcid, minted_for);
    let head = token_prefix() + presented_by.spec_octets();
    let own = token_prefix() + minted_for.spec_octets();
    assert(minted_for.spec_octets().len() == presented_by.spec_octets().len());
    if head.len() <= token.len() && token.take(head.len() as int) == head {
        assert(token.take(own.len() as int) =~= own);
        assert(own =~= head);
        assert(minted_for.spec_octets() =~= own.skip(6));
        assert(presented_by.spec_octets() =~= head.skip(6));
        match minted_for {
            IpAddress::V4(a) => {
                match presented_by {
                    IpAddress::V4(b) => { assert(a == b); }
                    _ => {}
                }
            }
            IpAddress::V6(a) => {
                match presented_by {
                    IpAddress::V6(b) => { assert(a == b); }
                    _ => {}
                }
            }
        }
    }
}

} // verus!
