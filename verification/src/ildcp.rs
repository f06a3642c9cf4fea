//! The ILDCP client.
//!
//! A child node asks its parent for its assigned ILP address and asset
//! parameters by sending a `Prepare` to the well-known address
//! `peer.config` with zero amount and the fixed peer-protocol condition.
//! The parent answers with a `Fulfill` whose data carries the
//! configuration: the assigned address, the asset scale, and the asset
//! code.

use vstd::prelude::*;
use crate::address::addr_wf;
use crate::oer::{
    lemma_parse_var_octet, read_len_prefix, spec_parse_len_prefix, spec_var_octet, subvec,
    write_var_octet,
};
use crate::packet::{Prepare, PrepareBuilder, PrepareV};
use crate::service::{
    Account, IncomingRequest, IncomingRequestV, IncomingService, RequestContext, result_view,
};
use crate::text::{spec_ascii_bytes, str_bytes};
use crate::timestamp::Timestamp;

verus! {

/// The well-known destination of ILDCP requests.
pub open spec fn spec_peer_config_address() -> Seq<u8> {
    spec_ascii_bytes("peer.config"@)
}

/// The fixed condition of peer-protocol packets: the SHA-256 digest of
/// the all-zero 32-byte fulfillment.
pub open spec fn spec_peer_protocol_condition() -> Seq<u8> {
    seq![
        0x66u8, 0x68u8, 0x7au8, 0xadu8, 0xf8u8, 0x62u8, 0xbdu8, 0x77u8,
        0x6cu8, 0x8fu8, 0xc1u8, 0x8bu8, 0x8eu8, 0x9fu8, 0x8eu8, 0x20u8,
        0x08u8, 0x97u8, 0x14u8, 0x85u8, 0x6eu8, 0xe2u8, 0x33u8, 0xb3u8,
        0x90u8, 0x2au8, 0x59u8, 0x1du8, 0x0du8, 0x5fu8, 0x29u8, 0x25u8,
    ]
}

/// The condition bytes of peer-protocol packets.
pub fn peer_protocol_condition() -> (r: Vec<u8>)
    ensures
        r@ == spec_peer_protocol_condition(),
{
    let v: Vec<u8> = vec![
        0x66, 0x68, 0x7a, 0xad, 0xf8, 0x62, 0xbd, 0x77, 0x6c, 0x8f, 0xc1, 0x8b, 0x8e, 0x9f, 0x8e,
        0x20, 0x08, 0x97, 0x14, 0x85, 0x6e, 0xe2, 0x33, 0xb3, 0x90, 0x2a, 0x59, 0x1d, 0x0d, 0x5f,
        0x29, 0x25,
    ];
    assert(v@ =~= spec_peer_protocol_condition());
    v
}

/// The prepare that an ILDCP request travels as: zero amount, destination
/// `peer.config`, the peer-protocol condition, no data.
pub open spec fn spec_ildcp_prepare(expires_at: Timestamp) -> PrepareV {
    PrepareV {
        amount: 0,
        expires_at,
        execution_condition: spec_peer_protocol_condition(),
        destination: spec_peer_config_address(),
        data: Seq::<u8>::empty(),
    }
}

/// An ILDCP request.  It carries no payload of its own; everything is in
/// the fixed prepare envelope.
pub struct IldcpRequest {}

impl IldcpRequest {
    /// The request as a prepare packet, expiring at the given instant.
    pub fn to_prepare(self, expires_at: Timestamp) -> (r: Prepare)
        requires
            expires_at.wf(),
        ensures
            r@ == spec_ildcp_prepare(expires_at),
    {
        proof {
            reveal_strlit("peer.config");
        }
        let destination = str_bytes("peer.config");
        let built = PrepareBuilder {
            amount: 0,
            expires_at,
            execution_condition: peer_protocol_condition(),
            destination,
            data: Vec::new(),
        }.build();
        match built {
            Ok(p) => p,
            Err(_) => vstd::pervasive::unreached(),
        }
    }
}

/// The mathematical value of an ILDCP response.
#[verifier::ext_equal]
pub struct IldcpResponseV {
    pub ilp_address: Seq<u8>,
    pub asset_scale: u8,
    pub asset_code: Seq<u8>,
}

impl IldcpResponseV {
    pub open spec fn wf(self) -> bool {
        &&& addr_wf(self.ilp_address)
        &&& self.asset_code.len() <= 8191
    }
}

/// The peer configuration carried in an ILDCP fulfill: the assigned ILP
/// address, the asset scale, and the asset code.
#[derive(Debug)]
pub struct IldcpResponse {
    ilp_address: Vec<u8>,
    asset_scale: u8,
    asset_code: Vec<u8>,
}

impl View for IldcpResponse {
    type V = IldcpResponseV;

    closed spec fn view(&self) -> IldcpResponseV {
        IldcpResponseV {
            ilp_address: self.ilp_address@,
            asset_scale: self.asset_scale,
            asset_code: self.asset_code@,
        }
    }
}

/// The payload bytes of an ILDCP response: the address as a var-octet
/// string, the asset scale byte, the asset code as a var-octet string.
pub open spec fn spec_ildcp_response_bytes(r: IldcpResponseV) -> Seq<u8> {
    spec_var_octet(r.ilp_address) + seq![r.asset_scale] + spec_var_octet(r.asset_code)
}

/// Parses an ILDCP response payload.
pub open spec fn spec_parse_ildcp_response(s: Seq<u8>) -> Option<IldcpResponseV> {
    match spec_parse_len_prefix(s, 0) {
        None => None,
        Some((an, ahl)) => if ahl + an + 1 > s.len() || an < 1 || an > 1023 {
            None
        } else {
            let scale_at = ahl + an;
            match spec_parse_len_prefix(s, scale_at + 1) {
                None => None,
                Some((cn, chl)) => if scale_at + 1 + chl + cn != s.len() || cn > 8191 {
                    None
                } else {
                    Some(
                        IldcpResponseV {
                            ilp_address: s.subrange(ahl as int, scale_at as int),
                            asset_scale: s[scale_at as int],
                            asset_code: s.subrange(scale_at + 1 + chl, s.len() as int),
                        },
                    )
                },
            }
        },
    }
}

/// Parsing the payload bytes of a valid response gives it back.
pub proof fn lemma_ildcp_response_round_trip(r: IldcpResponseV)
    requires
        r.wf(),
    ensures
        spec_parse_ildcp_response(spec_ildcp_response_bytes(r)) == Some(r),
{
    let s = spec_ildcp_response_bytes(r);
    let v1 = spec_var_octet(r.ilp_address);
    let v2 = spec_var_octet(r.asset_code);
    assert(s.subrange(0, v1.len() as int) =~= v1);
    lemma_parse_var_octet(s, 0, r.ilp_address);
    let ahl = v1.len() - r.ilp_address.len();
    let scale_at = ahl + r.ilp_address.len() as int;
    assert(s[scale_at] == r.asset_scale);
    assert(s.subrange(scale_at + 1, scale_at + 1 + v2.len() as int) =~= v2);
    lemma_parse_var_octet(s, scale_at + 1, r.asset_code);
    assert(spec_parse_ildcp_response(s)->Some_0 =~= r);
}

impl IldcpResponse {
    pub fn new(ilp_address: Vec<u8>, asset_scale: u8, asset_code: Vec<u8>) -> (r: Option<
        IldcpResponse,
    >)
        ensures
            match r {
                Some(resp) => resp@ == (IldcpResponseV {
                    ilp_address: ilp_address@,
                    asset_scale,
                    asset_code: asset_code@,
                }) && resp@.wf(),
                None => !(IldcpResponseV {
                    ilp_address: ilp_address@,
                    asset_scale,
                    asset_code: asset_code@,
                }).wf(),
            },
    {
        if ilp_address.len() < 1 || ilp_address.len() > 1023 || asset_code.len() > 8191 {
            None
        } else {
            Some(IldcpResponse { ilp_address, asset_scale, asset_code })
        }
    }

    /// The peer-assigned ILP address.
    pub fn ilp_address(&self) -> (r: &Vec<u8>)
        ensures
            r@ == self@.ilp_address,
    {
        &self.ilp_address
    }

    pub fn asset_scale(&self) -> (r: u8)
        ensures
            r == self@.asset_scale,
    {
        self.asset_scale
    }

    pub fn asset_code(&self) -> (r: &Vec<u8>)
        ensures
            r@ == self@.asset_code,
    {
        &self.asset_code
    }

    /// The payload bytes of this response.
    pub fn encode(&self) -> (r: Vec<u8>)
        requires
            self@.wf(),
        ensures
            r@ == spec_ildcp_response_bytes(self@),
    {
        let mut out: Vec<u8> = Vec::new();
        write_var_octet(&mut out, &self.ilp_address);
        out.push(self.asset_scale);
        write_var_octet(&mut out, &self.asset_code);
        assert(out@ =~= spec_ildcp_response_bytes(self@));
        out
    }

    /// Parses a response payload.
    pub fn parse(bytes: &Vec<u8>) -> (r: Option<IldcpResponse>)
        ensures
            match r {
                Some(resp) => spec_parse_ildcp_response(bytes@) == Some(resp@) && resp@.wf(),
                None => spec_parse_ildcp_response(bytes@) is None,
            },
    {
        let n = bytes.len();
        let (an, ahl) = match read_len_prefix(bytes, 0) {
            Some(p) => p,
            None => {
                return None;
            },
        };
        if an > n - ahl || an + ahl == n || an < 1 || an > 1023 {
            if an <= n - ahl && an + ahl == n {
                assert(ahl + an + 1 > bytes@.len());
            }
            return None;
        }
        let ilp_address = subvec(bytes, ahl, ahl + an);
        let scale_at = ahl + an;
        let asset_scale = bytes[scale_at];
        let (cn, chl) = match read_len_prefix(bytes, scale_at + 1) {
            Some(p) => p,
            None => {
                return None;
            },
        };
        if cn != n - scale_at - 1 - chl || cn > 8191 {
            return None;
        }
        let asset_code = subvec(bytes, scale_at + 1 + chl, n);
        Some(IldcpResponse { ilp_address, asset_scale, asset_code })
    }
}

/// Asks the peer behind `service` for this node's configuration: sends
/// the ILDCP prepare through the service and parses the fulfill payload.
///
/// The contract: the service handled exactly the ILDCP prepare under the
/// given context, and the call succeeds with the parsed configuration if
/// and only if the service fulfilled and its payload parses; a reject or
/// an unparseable payload surface as the error.
pub fn get_ildcp_info<I: IncomingService>(
    service: &mut I,
    account: Account,
    context: &RequestContext,
    expires_at: Timestamp,
) -> (r: Result<IldcpResponse, ()>)
    requires
        old(service).wf(),
        expires_at.wf(),
    ensures
        final(service).wf(),
        exists|res: Result<crate::packet::FulfillV, crate::packet::RejectV>|
            {
                &&& #[trigger] old(service).post(
                    *final(service),
                    IncomingRequestV { from: account@, prepare: spec_ildcp_prepare(expires_at) },
                    context@,
                    res,
                )
                &&& match r {
                    Ok(resp) => res is Ok && spec_parse_ildcp_response(res->Ok_0.data) == Some(
                        resp@,
                    ),
                    Err(_) => res is Err || spec_parse_ildcp_response(res->Ok_0.data) is None,
                }
            },
{
    let prepare = IldcpRequest {  }.to_prepare(expires_at);
    let request = IncomingRequest { from: account, prepare };
    let result = service.handle_request(request, context);
    let ghost res0 = result_view(&result);
    match result {
        Ok(fulfill) => {
            let data = fulfill.into_data();
            match IldcpResponse::parse(&data) {
                Some(resp) => Ok(resp),
                None => Err(()),
            }
        },
        Err(_) => Err(()),
    }
}

} // verus!
