//! The Echo protocol handler.
//!
//! Peers probe each other's liveness by sending a `Prepare` addressed to
//! the probed node itself, whose data is the ASCII prefix
//! `ECHOECHOECHOECHO`, a type byte (0 for a request, 1 for a response),
//! and the prober's own address as a var-octet string.  The handler
//! inspects every incoming prepare: one addressed to somebody else passes
//! through unchanged; a well-formed echo request is rewritten — the
//! destination becomes the decoded source address, the expiry moves one
//! second earlier as a safety margin, the data becomes prefix-and-response
//! byte — and forwarded, so that normal routing returns it to the prober;
//! anything else addressed to this node is rejected with `F01`, triggered
//! by this node's own address.

use vstd::prelude::*;
use crate::address::{addr_wf, Address, bytes_eq};
use crate::decimal::{format_decimal, lemma_decimal_len_u64, spec_decimal};
use crate::errorcode::ErrorCode;
use crate::oer::{append_bytes, read_len_prefix, spec_parse_len_prefix, subvec};
use crate::packet::{Fulfill, FulfillV, PrepareV, Reject, RejectBuilder, RejectV};
use crate::service::{
    IncomingRequest, IncomingRequestV, IncomingService, RequestContext, RequestContextV,
    result_view,
};
use crate::text::{spec_ascii_bytes, str_bytes};
use crate::timestamp::spec_prev_second;

verus! {

/// The ASCII bytes `ECHOECHOECHOECHO` that open every echo payload.
pub open spec fn spec_echo_prefix() -> Seq<u8> {
    spec_ascii_bytes("ECHOECHOECHOECHO"@)
}

/// Echo data holds at least the prefix and one type byte.
pub const MIN_DATA_SIZE: usize = 17;

/// The message of the reject for echo data shorter than `MIN_DATA_SIZE`.
pub open spec fn spec_too_short_message(len: int) -> Seq<u8> {
    spec_ascii_bytes("packet data too short for echo request. length="@) + spec_decimal(len)
}

/// The message of the reject for echo data that does not open with the
/// echo prefix.
pub open spec fn spec_bad_prefix_message() -> Seq<u8> {
    spec_ascii_bytes("packet data does not start with ECHO prefix."@)
}

/// The message of the reject for an echo response, which this node never
/// expects to receive.
pub open spec fn spec_unexpected_response_message() -> Seq<u8> {
    spec_ascii_bytes("unexpected echo response."@)
}

/// The message of the reject for an echo request whose source address is
/// missing, truncated, or not a routable address.
pub open spec fn spec_bad_source_message() -> Seq<u8> {
    spec_ascii_bytes("packet data does not contain a valid source address."@)
}

/// The reject that the echo handler raises locally: code `F01`, triggered
/// by this node's own address, no data.
pub open spec fn spec_echo_reject(message: Seq<u8>, context: RequestContextV) -> RejectV {
    RejectV {
        code: seq![70u8, 48u8, 49u8],
        triggered_by: context.ilp_address,
        message,
        data: Seq::<u8>::empty(),
    }
}

/// The source address inside echo data: a var-octet string directly after
/// the prefix and the type byte.  Bytes after it are ignored.
pub open spec fn spec_source_address(data: Seq<u8>) -> Option<Seq<u8>> {
    match spec_parse_len_prefix(data, 17) {
        Some((n, hl)) => if 17 + hl + n <= data.len() {
            Some(data.subrange(17 + hl, 17 + hl + n))
        } else {
            None
        },
        None => None,
    }
}

/// An echo request rewritten for the return trip: destination moved to the
/// decoded source address, expiry one second earlier, data replaced by the
/// prefix and the response type byte.
pub open spec fn spec_echo_rewrite(request: IncomingRequestV, src: Seq<u8>) -> IncomingRequestV {
    IncomingRequestV {
        from: request.from,
        prepare: PrepareV {
            destination: src,
            expires_at: spec_prev_second(request.prepare.expires_at),
            data: spec_echo_prefix() + seq![1u8],
            ..request.prepare
        },
    }
}

/// A service that responds to the Echo protocol on the incoming side,
/// short-circuiting packets addressed to this node and forwarding all
/// others to the next incoming stage.
pub struct EchoService<S> {
    pub next_incoming: S,
}

impl<S: IncomingService> EchoService<S> {
    pub fn new(next_incoming: S) -> (r: EchoService<S>)
        ensures
            r.next_incoming == next_incoming,
    {
        EchoService { next_incoming }
    }

    /// The node's own ILP address, as the request's context snapshot holds
    /// it.
    pub fn get_own_address(&self, context: &RequestContext) -> (r: Address)
        ensures
            r@ == context@.ilp_address,
    {
        context.ilp_address().duplicate()
    }

    /// A locally raised echo reject with the given message.
    fn get_error_response(&self, message: Vec<u8>, context: &RequestContext) -> (r: Reject)
        requires
            message@.len() <= 8191,
        ensures
            r@ == spec_echo_reject(message@, context@),
    {
        let own = self.get_own_address(context);
        let triggered_by = own.into_bytes();
        let built = RejectBuilder {
            code: ErrorCode::f01_invalid_packet(),
            triggered_by,
            message,
            data: Vec::new(),
        }.build();
        match built {
            Ok(j) => j,
            Err(_) => vstd::pervasive::unreached(),
        }
    }

    /// The reject for echo data of `length` bytes, fewer than the protocol
    /// needs.
    fn get_packet_too_short_error(&self, length: u64, context: &RequestContext) -> (r: Reject)
        ensures
            r@ == spec_echo_reject(spec_too_short_message(length as int), context@),
    {
        proof {
            reveal_strlit("packet data too short for echo request. length=");
            lemma_decimal_len_u64(length);
        }
        let mut message = str_bytes("packet data too short for echo request. length=");
        let digits = format_decimal(length);
        append_bytes(&mut message, &digits);
        self.get_error_response(message, context)
    }

    /// The reject for echo data that does not open with the echo prefix.
    fn get_invalid_prefix_error(&self, context: &RequestContext) -> (r: Reject)
        ensures
            r@ == spec_echo_reject(spec_bad_prefix_message(), context@),
    {
        proof {
            reveal_strlit("packet data does not start with ECHO prefix.");
        }
        let message = str_bytes("packet data does not start with ECHO prefix.");
        self.get_error_response(message, context)
    }

    /// The reject for an echo response, which this node never expects.
    fn get_unexpected_echo_response_error(&self, context: &RequestContext) -> (r: Reject)
        ensures
            r@ == spec_echo_reject(spec_unexpected_response_message(), context@),
    {
        proof {
            reveal_strlit("unexpected echo response.");
        }
        let message = str_bytes("unexpected echo response.");
        self.get_error_response(message, context)
    }

    /// The reject for an echo request without a usable source address.
    fn get_invalid_source_error(&self, context: &RequestContext) -> (r: Reject)
        ensures
            r@ == spec_echo_reject(spec_bad_source_message(), context@),
    {
        proof {
            reveal_strlit("packet data does not contain a valid source address.");
        }
        let message = str_bytes("packet data does not contain a valid source address.");
        self.get_error_response(message, context)
    }
}

/// The bytes `ECHOECHOECHOECHO`.
fn echo_prefix() -> (r: Vec<u8>)
    ensures
        r@ == spec_echo_prefix(),
{
    proof {
        reveal_strlit("ECHOECHOECHOECHO");
    }
    str_bytes("ECHOECHOECHOECHO")
}

impl<S: IncomingService> IncomingService for EchoService<S> {
    open spec fn wf(&self) -> bool {
        self.next_incoming.wf()
    }

    /// The echo contract.  A prepare addressed to somebody else is handed
    /// to the next stage unchanged.  A self-addressed prepare is rejected
    /// locally — data too short, wrong prefix, a response type byte, or an
    /// unusable source address — or, for a well-formed echo request,
    /// rewritten and handed to the next stage.
    open spec fn post(
        &self,
        next: Self,
        request: IncomingRequestV,
        context: RequestContextV,
        result: Result<FulfillV, RejectV>,
    ) -> bool {
        let data = request.prepare.data;
        if request.prepare.destination != context.ilp_address {
            self.next_incoming.post(next.next_incoming, request, context, result)
        } else if data.len() < 17 {
            &&& result == Result::<FulfillV, RejectV>::Err(
                spec_echo_reject(spec_too_short_message(data.len() as int), context),
            )
            &&& next == *self
        } else if data.subrange(0, 16) != spec_echo_prefix() {
            &&& result == Result::<FulfillV, RejectV>::Err(
                spec_echo_reject(spec_bad_prefix_message(), context),
            )
            &&& next == *self
        } else if data[16] != 0 {
            &&& result == Result::<FulfillV, RejectV>::Err(
                spec_echo_reject(spec_unexpected_response_message(), context),
            )
            &&& next == *self
        } else {
            match spec_source_address(data) {
                Some(src) => if addr_wf(src) {
                    self.next_incoming.post(
                        next.next_incoming,
                        spec_echo_rewrite(request, src),
                        context,
                        result,
                    )
                } else {
                    &&& result == Result::<FulfillV, RejectV>::Err(
                        spec_echo_reject(spec_bad_source_message(), context),
                    )
                    &&& next == *self
                },
                None => {
                    &&& result == Result::<FulfillV, RejectV>::Err(
                        spec_echo_reject(spec_bad_source_message(), context),
                    )
                    &&& next == *self
                },
            }
        }
    }

    fn handle_request(&mut self, request: IncomingRequest, context: &RequestContext) -> (r: Result<
        Fulfill,
        Reject,
    >) {
        proof {
            use_type_invariant(&request.prepare);
        }
        let ghost request_v = request@;
        let should_echo = bytes_eq(request.prepare.destination(), context.ilp_address().as_bytes());
        if !should_echo {
            return self.next_incoming.handle_request(request, context);
        }
        let data_len = request.prepare.data().len();
        if data_len < MIN_DATA_SIZE {
            return Err(self.get_packet_too_short_error(data_len as u64, context));
        }
        let head = subvec(request.prepare.data(), 0, 16);
        let prefix = echo_prefix();
        if !bytes_eq(&head, &prefix) {
            return Err(self.get_invalid_prefix_error(context));
        }
        let echo_packet_type = request.prepare.data()[16];
        if echo_packet_type != 0 {
            return Err(self.get_unexpected_echo_response_error(context));
        }
        let source_address = match read_len_prefix(request.prepare.data(), 17) {
            Some((n, hl)) => {
                if n <= data_len - 17 - hl {
                    subvec(request.prepare.data(), 17 + hl, 17 + hl + n)
                } else {
                    return Err(self.get_invalid_source_error(context));
                }
            },
            None => {
                return Err(self.get_invalid_source_error(context));
            },
        };
        assert(spec_source_address(request_v.prepare.data) == Some(source_address@));
        if source_address.len() < 1 || source_address.len() > 1023 {
            return Err(self.get_invalid_source_error(context));
        }
        // Rewrite the prepare so that routing sends it back to its source.
        proof {
            reveal_strlit("ECHOECHOECHOECHO");
        }
        let IncomingRequest { from, prepare: mut prepare } = request;
        let mut data_buffer = echo_prefix();
        data_buffer.push(1);
        prepare.set_destination(source_address);
        let earlier = prepare.expires_at().minus_one_second();
        prepare.set_expires_at(earlier);
        prepare.set_data(data_buffer);
        let rewritten = IncomingRequest { from, prepare };
        assert(rewritten@ =~= spec_echo_rewrite(request_v, spec_source_address(
            request_v.prepare.data,
        )->Some_0));
        self.next_incoming.handle_request(rewritten, context)
    }
}

} // verus!
