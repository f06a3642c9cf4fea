//! The ILP packet codec.
//!
//! Three packet kinds travel between nodes: `Prepare` (tag 12), `Fulfill`
//! (tag 13) and `Reject` (tag 14).  A packet is its one-byte type tag, an
//! OER length prefix for the content, and the content fields in canonical
//! order.  Encoding is canonical — the same packet always yields the same
//! bytes — and decoding a canonical encoding gives the packet back
//! bit-exactly, which the round-trip lemmas here prove.

use vstd::prelude::*;
use crate::address::addr_wf;
use crate::errorcode::{code_bytes_wf, ErrorCode};
use crate::oer::{
    append_bytes, clone_bytes, lemma_be_u64_round_trip, lemma_parse_len_prefix,
    lemma_parse_var_octet, read_len_prefix, read_u64_be, spec_len_prefix, spec_parse_len_prefix,
    spec_u64_be, spec_be_u64, spec_var_octet, subvec, write_len_prefix, write_u64_be,
    write_var_octet,
};
use crate::timestamp::{
    lemma_timestamp_round_trip, read_timestamp, spec_parse_timestamp, spec_ts_bytes, Timestamp,
    write_timestamp,
};

verus! {

/// Why a byte string failed to parse.
#[derive(Clone, Copy, Debug, PartialEq, Eq, Structural)]
pub enum ParseError {
    /// The type tag is missing or names no known packet kind.
    InvalidType,
    /// A length prefix is truncated, non-canonical, or inconsistent with the
    /// number of bytes that are actually there.
    InvalidLength,
    /// The expiry is not 17 digits naming a calendar instant.
    InvalidTimestamp,
    /// An address field is empty or longer than an address may be.
    InvalidAddress,
    /// An error code field holds a non-ASCII byte.
    InvalidErrorCode,
}

/// The mathematical value of a `Prepare` packet.
#[verifier::ext_equal]
pub struct PrepareV {
    pub amount: u64,
    pub expires_at: Timestamp,
    pub execution_condition: Seq<u8>,
    pub destination: Seq<u8>,
    pub data: Seq<u8>,
}

/// The mathematical value of a `Fulfill` packet.
#[verifier::ext_equal]
pub struct FulfillV {
    pub fulfillment: Seq<u8>,
    pub data: Seq<u8>,
}

/// The mathematical value of a `Reject` packet.
#[verifier::ext_equal]
pub struct RejectV {
    pub code: Seq<u8>,
    pub triggered_by: Seq<u8>,
    pub message: Seq<u8>,
    pub data: Seq<u8>,
}

/// The mathematical value of any ILP packet.
#[verifier::ext_equal]
pub enum PacketV {
    Prepare(PrepareV),
    Fulfill(FulfillV),
    Reject(RejectV),
}

impl PrepareV {
    pub open spec fn wf(self) -> bool {
        &&& self.expires_at.wf()
        &&& self.execution_condition.len() == 32
        &&& addr_wf(self.destination)
        &&& self.data.len() <= 32767
    }
}

impl FulfillV {
    pub open spec fn wf(self) -> bool {
        &&& self.fulfillment.len() == 32
        &&& self.data.len() <= 32767
    }
}

impl RejectV {
    pub open spec fn wf(self) -> bool {
        &&& code_bytes_wf(self.code)
        &&& self.triggered_by.len() <= 1023
        &&& self.message.len() <= 8191
        &&& self.data.len() <= 32767
    }
}

impl PacketV {
    pub open spec fn wf(self) -> bool {
        match self {
            PacketV::Prepare(p) => p.wf(),
            PacketV::Fulfill(f) => f.wf(),
            PacketV::Reject(r) => r.wf(),
        }
    }
}

/// The content bytes of a `Prepare`: amount, expiry, condition, then the
/// destination and the data as var-octet strings.
pub open spec fn spec_prepare_content(p: PrepareV) -> Seq<u8> {
    spec_u64_be(p.amount) + spec_ts_bytes(p.expires_at) + p.execution_condition + spec_var_octet(
        p.destination,
    ) + spec_var_octet(p.data)
}

/// The content bytes of a `Fulfill`: fulfillment, then the data.
pub open spec fn spec_fulfill_content(f: FulfillV) -> Seq<u8> {
    f.fulfillment + spec_var_octet(f.data)
}

/// The content bytes of a `Reject`: code, then triggering address, message
/// and data as var-octet strings.
pub open spec fn spec_reject_content(r: RejectV) -> Seq<u8> {
    r.code + spec_var_octet(r.triggered_by) + spec_var_octet(r.message) + spec_var_octet(r.data)
}

/// A packet envelope: the type tag, the content length, the content.
pub open spec fn spec_envelope(tag: u8, content: Seq<u8>) -> Seq<u8> {
    seq![tag] + spec_len_prefix(content.len() as int) + content
}

/// The wire bytes of a packet.
pub open spec fn spec_packet_bytes(p: PacketV) -> Seq<u8> {
    match p {
        PacketV::Prepare(q) => spec_envelope(12, spec_prepare_content(q)),
        PacketV::Fulfill(f) => spec_envelope(13, spec_fulfill_content(f)),
        PacketV::Reject(r) => spec_envelope(14, spec_reject_content(r)),
    }
}

/// Strips the envelope: checks the length prefix at offset 1 and that it
/// covers exactly the rest of the input.
pub open spec fn spec_parse_envelope(s: Seq<u8>) -> Result<Seq<u8>, ParseError> {
    match spec_parse_len_prefix(s, 1) {
        Some((n, hl)) => if s.len() == 1 + hl + n {
            Ok(s.subrange(1 + hl, s.len() as int))
        } else {
            Err(ParseError::InvalidLength)
        },
        None => Err(ParseError::InvalidLength),
    }
}

/// Parses the content of a `Prepare`.
pub open spec fn spec_parse_prepare_content(c: Seq<u8>) -> Result<PrepareV, ParseError> {
    if c.len() < 57 {
        Err(ParseError::InvalidLength)
    } else {
        match spec_parse_timestamp(c.subrange(8, 25)) {
            None => Err(ParseError::InvalidTimestamp),
            Some(ts) => match spec_parse_len_prefix(c, 57) {
                None => Err(ParseError::InvalidLength),
                Some((dn, dhl)) => if 57 + dhl + dn > c.len() {
                    Err(ParseError::InvalidLength)
                } else if dn < 1 || dn > 1023 {
                    Err(ParseError::InvalidAddress)
                } else {
                    match spec_parse_len_prefix(c, 57 + dhl + dn) {
                        None => Err(ParseError::InvalidLength),
                        Some((an, ahl)) => if 57 + dhl + dn + ahl + an != c.len() {
                            Err(ParseError::InvalidLength)
                        } else if an > 32767 {
                            Err(ParseError::InvalidLength)
                        } else {
                            Ok(
                                PrepareV {
                                    amount: spec_be_u64(c.subrange(0, 8)),
                                    expires_at: ts,
                                    execution_condition: c.subrange(25, 57),
                                    destination: c.subrange(57 + dhl, 57 + dhl + dn),
                                    data: c.subrange(57 + dhl + dn + ahl, c.len() as int),
                                },
                            )
                        },
                    }
                },
            },
        }
    }
}

/// Parses the content of a `Fulfill`.
pub open spec fn spec_parse_fulfill_content(c: Seq<u8>) -> Result<FulfillV, ParseError> {
    if c.len() < 32 {
        Err(ParseError::InvalidLength)
    } else {
        match spec_parse_len_prefix(c, 32) {
            None => Err(ParseError::InvalidLength),
            Some((an, ahl)) => if 32 + ahl + an != c.len() {
                Err(ParseError::InvalidLength)
            } else if an > 32767 {
                Err(ParseError::InvalidLength)
            } else {
                Ok(
                    FulfillV {
                        fulfillment: c.subrange(0, 32),
                        data: c.subrange(32 + ahl, c.len() as int),
                    },
                )
            },
        }
    }
}

/// Parses the content of a `Reject`.
pub open spec fn spec_parse_reject_content(c: Seq<u8>) -> Result<RejectV, ParseError> {
    if c.len() < 3 {
        Err(ParseError::InvalidLength)
    } else if !code_bytes_wf(c.subrange(0, 3)) {
        Err(ParseError::InvalidErrorCode)
    } else {
        match spec_parse_len_prefix(c, 3) {
            None => Err(ParseError::InvalidLength),
            Some((tn, thl)) => if 3 + thl + tn > c.len() {
                Err(ParseError::InvalidLength)
            } else if tn > 1023 {
                Err(ParseError::InvalidAddress)
            } else {
                let mi = 3 + thl + tn;
                match spec_parse_len_prefix(c, mi) {
                    None => Err(ParseError::InvalidLength),
                    Some((mn, mhl)) => if mi + mhl + mn > c.len() {
                        Err(ParseError::InvalidLength)
                    } else if mn > 8191 {
                        Err(ParseError::InvalidLength)
                    } else {
                        let di = mi + mhl + mn;
                        match spec_parse_len_prefix(c, di) {
                            None => Err(ParseError::InvalidLength),
                            Some((dn, dhl)) => if di + dhl + dn != c.len() {
                                Err(ParseError::InvalidLength)
                            } else if dn > 32767 {
                                Err(ParseError::InvalidLength)
                            } else {
                                Ok(
                                    RejectV {
                                        code: c.subrange(0, 3),
                                        triggered_by: c.subrange(3 + thl, 3 + thl + tn),
                                        message: c.subrange(mi + mhl, mi + mhl + mn),
                                        data: c.subrange(di + dhl, c.len() as int),
                                    },
                                )
                            },
                        }
                    },
                }
            },
        }
    }
}

/// Parses a whole packet: the type tag picks the kind, the envelope must
/// cover the input exactly, and the content must be well-formed.
pub open spec fn spec_parse_packet(s: Seq<u8>) -> Result<PacketV, ParseError> {
    if s.len() == 0 {
        Err(ParseError::InvalidType)
    } else if s[0] == 12 {
        match spec_parse_envelope(s) {
            Ok(c) => match spec_parse_prepare_content(c) {
                Ok(p) => Ok(PacketV::Prepare(p)),
                Err(e) => Err(e),
            },
            Err(e) => Err(e),
        }
    } else if s[0] == 13 {
        match spec_parse_envelope(s) {
            Ok(c) => match spec_parse_fulfill_content(c) {
                Ok(f) => Ok(PacketV::Fulfill(f)),
                Err(e) => Err(e),
            },
            Err(e) => Err(e),
        }
    } else if s[0] == 14 {
        match spec_parse_envelope(s) {
            Ok(c) => match spec_parse_reject_content(c) {
                Ok(r) => Ok(PacketV::Reject(r)),
                Err(e) => Err(e),
            },
            Err(e) => Err(e),
        }
    } else {
        Err(ParseError::InvalidType)
    }
}

/// The length prefix is at most three bytes.
proof fn lemma_len_prefix_len(n: int)
    ensures
        1 <= spec_len_prefix(n).len() <= 3,
{
}

/// Stripping the envelope that was written around `content` gives `content`.
proof fn lemma_envelope_round_trip(tag: u8, content: Seq<u8>)
    requires
        content.len() < 65536,
    ensures
        spec_envelope(tag, content).len() > 0,
        spec_envelope(tag, content)[0] == tag,
        spec_parse_envelope(spec_envelope(tag, content)) == Ok::<Seq<u8>, ParseError>(content),
{
    let n = content.len() as int;
    let p = spec_len_prefix(n);
    let s = spec_envelope(tag, content);
    lemma_len_prefix_len(n);
    assert(s.subrange(1, 1 + p.len() as int) =~= p);
    lemma_parse_len_prefix(s, 1, n);
    assert(s.subrange(1 + p.len() as int, s.len() as int) =~= content);
}

/// Parsing the content bytes of a valid `Prepare` gives it back.
proof fn lemma_prepare_content_round_trip(p: PrepareV)
    requires
        p.wf(),
    ensures
        spec_prepare_content(p).len() < 65536,
        spec_parse_prepare_content(spec_prepare_content(p)) == Ok::<PrepareV, ParseError>(p),
{
    let c = spec_prepare_content(p);
    let v1 = spec_var_octet(p.destination);
    let v2 = spec_var_octet(p.data);
    lemma_len_prefix_len(p.destination.len() as int);
    lemma_len_prefix_len(p.data.len() as int);
    assert(c.len() == 57 + v1.len() + v2.len());
    assert(c.subrange(0, 8) =~= spec_u64_be(p.amount));
    lemma_be_u64_round_trip(p.amount);
    assert(c.subrange(8, 25) =~= spec_ts_bytes(p.expires_at));
    lemma_timestamp_round_trip(p.expires_at);
    assert(c.subrange(25, 57) =~= p.execution_condition);
    assert(c.subrange(57, 57 + v1.len() as int) =~= v1);
    lemma_parse_var_octet(c, 57, p.destination);
    let dhl = spec_len_prefix(p.destination.len() as int).len() as int;
    let i = 57 + dhl + p.destination.len() as int;
    assert(c.subrange(i, i + v2.len() as int) =~= v2);
    lemma_parse_var_octet(c, i, p.data);
    let ahl = spec_len_prefix(p.data.len() as int).len() as int;
    assert(spec_parse_prepare_content(c) == Ok::<PrepareV, ParseError>(
        PrepareV {
            amount: spec_be_u64(c.subrange(0, 8)),
            expires_at: p.expires_at,
            execution_condition: c.subrange(25, 57),
            destination: c.subrange(57 + dhl, i),
            data: c.subrange(i + ahl, c.len() as int),
        },
    ));
    assert(PrepareV {
        amount: spec_be_u64(c.subrange(0, 8)),
        expires_at: p.expires_at,
        execution_condition: c.subrange(25, 57),
        destination: c.subrange(57 + dhl, i),
        data: c.subrange(i + ahl, c.len() as int),
    } =~= p);
}

/// Parsing the content bytes of a valid `Fulfill` gives it back.
proof fn lemma_fulfill_content_round_trip(f: FulfillV)
    requires
        f.wf(),
    ensures
        spec_fulfill_content(f).len() < 65536,
        spec_parse_fulfill_content(spec_fulfill_content(f)) == Ok::<FulfillV, ParseError>(f),
{
    let c = spec_fulfill_content(f);
    let v = spec_var_octet(f.data);
    lemma_len_prefix_len(f.data.len() as int);
    assert(c.subrange(0, 32) =~= f.fulfillment);
    assert(c.subrange(32, 32 + v.len() as int) =~= v);
    lemma_parse_var_octet(c, 32, f.data);
    let ahl = spec_len_prefix(f.data.len() as int).len() as int;
    assert(spec_parse_fulfill_content(c) == Ok::<FulfillV, ParseError>(
        FulfillV { fulfillment: c.subrange(0, 32), data: c.subrange(32 + ahl, c.len() as int) },
    ));
    assert(FulfillV {
        fulfillment: c.subrange(0, 32),
        data: c.subrange(32 + ahl, c.len() as int),
    } =~= f);
}

/// Parsing the content bytes of a valid `Reject` gives it back.
proof fn lemma_reject_content_round_trip(r: RejectV)
    requires
        r.wf(),
    ensures
        spec_reject_content(r).len() < 65536,
        spec_parse_reject_content(spec_reject_content(r)) == Ok::<RejectV, ParseError>(r),
{
    let c = spec_reject_content(r);
    let v1 = spec_var_octet(r.triggered_by);
    let v2 = spec_var_octet(r.message);
    let v3 = spec_var_octet(r.data);
    lemma_len_prefix_len(r.triggered_by.len() as int);
    lemma_len_prefix_len(r.message.len() as int);
    lemma_len_prefix_len(r.data.len() as int);
    assert(c.len() == 3 + v1.len() + v2.len() + v3.len());
    assert(c.subrange(0, 3) =~= r.code);
    assert(c.subrange(3, 3 + v1.len() as int) =~= v1);
    lemma_parse_var_octet(c, 3, r.triggered_by);
    let thl = spec_len_prefix(r.triggered_by.len() as int).len() as int;
    let mi = 3 + thl + r.triggered_by.len() as int;
    assert(c.subrange(mi, mi + v2.len() as int) =~= v2);
    lemma_parse_var_octet(c, mi, r.message);
    let mhl = spec_len_prefix(r.message.len() as int).len() as int;
    let di = mi + mhl + r.message.len() as int;
    assert(c.subrange(di, di + v3.len() as int) =~= v3);
    lemma_parse_var_octet(c, di, r.data);
    let dhl = spec_len_prefix(r.data.len() as int).len() as int;
    assert(spec_parse_reject_content(c) == Ok::<RejectV, ParseError>(
        RejectV {
            code: c.subrange(0, 3),
            triggered_by: c.subrange(3 + thl, mi),
            message: c.subrange(mi + mhl, mi + mhl + r.message.len() as int),
            data: c.subrange(di + dhl, c.len() as int),
        },
    ));
    assert(RejectV {
        code: c.subrange(0, 3),
        triggered_by: c.subrange(3 + thl, mi),
        message: c.subrange(mi + mhl, mi + mhl + r.message.len() as int),
        data: c.subrange(di + dhl, c.len() as int),
    } =~= r);
}

/// Decoding the encoding of any valid packet gives the packet back.
///
/// Together with the canonicity of `spec_packet_bytes` — it is a function,
/// so the same packet always encodes to the same bytes — this also gives
/// `encode(decode(encode(p))) == encode(p)`.
#[verifier::rlimit(60)]
pub proof fn lemma_packet_round_trip(p: PacketV)
    requires
        p.wf(),
    ensures
        spec_parse_packet(spec_packet_bytes(p)) == Ok::<PacketV, ParseError>(p),
{
    match p {
        PacketV::Prepare(q) => {
            lemma_prepare_content_round_trip(q);
            lemma_envelope_round_trip(12, spec_prepare_content(q));
        },
        PacketV::Fulfill(f) => {
            lemma_fulfill_content_round_trip(f);
            lemma_envelope_round_trip(13, spec_fulfill_content(f));
        },
        PacketV::Reject(r) => {
            lemma_reject_content_round_trip(r);
            lemma_envelope_round_trip(14, spec_reject_content(r));
        },
    }
}

/// Encoding is canonical: re-encoding what an encoding decodes to gives
/// back the same bytes, for every valid packet, unknown error codes
/// included.
pub proof fn lemma_encode_canonical(p: PacketV)
    requires
        p.wf(),
    ensures
        spec_packet_bytes(spec_parse_packet(spec_packet_bytes(p))->Ok_0) == spec_packet_bytes(p),
{
    lemma_packet_round_trip(p);
}

/// An ILP `Prepare` packet: a request to deliver `amount` to `destination`
/// before `expires_at`, against the given execution condition.
#[derive(Debug)]
pub struct Prepare {
    amount: u64,
    expires_at: Timestamp,
    execution_condition: Vec<u8>,
    destination: Vec<u8>,
    data: Vec<u8>,
}

impl View for Prepare {
    type V = PrepareV;

    closed spec fn view(&self) -> PrepareV {
        PrepareV {
            amount: self.amount,
            expires_at: self.expires_at,
            execution_condition: self.execution_condition@,
            destination: self.destination@,
            data: self.data@,
        }
    }
}

/// An ILP `Fulfill` packet: proof of delivery, carrying the preimage of the
/// prepare's condition.
#[derive(Debug)]
pub struct Fulfill {
    fulfillment: Vec<u8>,
    data: Vec<u8>,
}

impl View for Fulfill {
    type V = FulfillV;

    closed spec fn view(&self) -> FulfillV {
        FulfillV { fulfillment: self.fulfillment@, data: self.data@ }
    }
}

/// An ILP `Reject` packet: a typed failure, naming the node that raised it.
#[derive(Debug)]
pub struct Reject {
    code: ErrorCode,
    triggered_by: Vec<u8>,
    message: Vec<u8>,
    data: Vec<u8>,
}

impl View for Reject {
    type V = RejectV;

    closed spec fn view(&self) -> RejectV {
        RejectV {
            code: self.code@,
            triggered_by: self.triggered_by@,
            message: self.message@,
            data: self.data@,
        }
    }
}

/// Any ILP packet.
#[derive(Debug)]
pub enum Packet {
    Prepare(Prepare),
    Fulfill(Fulfill),
    Reject(Reject),
}

impl View for Packet {
    type V = PacketV;

    open spec fn view(&self) -> PacketV {
        match self {
            Packet::Prepare(p) => PacketV::Prepare(p@),
            Packet::Fulfill(f) => PacketV::Fulfill(f@),
            Packet::Reject(r) => PacketV::Reject(r@),
        }
    }
}

/// Validates the fields of a `Prepare` before building it.
pub struct PrepareBuilder {
    pub amount: u64,
    pub expires_at: Timestamp,
    pub execution_condition: Vec<u8>,
    pub destination: Vec<u8>,
    pub data: Vec<u8>,
}

impl PrepareBuilder {
    /// The value the builder describes.
    pub open spec fn target(&self) -> PrepareV {
        PrepareV {
            amount: self.amount,
            expires_at: self.expires_at,
            execution_condition: self.execution_condition@,
            destination: self.destination@,
            data: self.data@,
        }
    }

    /// Builds the packet when every field satisfies its constraint.
    pub fn build(self) -> (r: Result<Prepare, ParseError>)
        ensures
            match r {
                Ok(p) => self.target().wf() && p@ == self.target(),
                Err(_) => !self.target().wf(),
            },
    {
        if !timestamp_wf_check(&self.expires_at) {
            return Err(ParseError::InvalidTimestamp);
        }
        if self.execution_condition.len() != 32 {
            return Err(ParseError::InvalidLength);
        }
        if self.destination.len() < 1 || self.destination.len() > 1023 {
            return Err(ParseError::InvalidAddress);
        }
        if self.data.len() > 32767 {
            return Err(ParseError::InvalidLength);
        }
        Ok(
            Prepare {
                amount: self.amount,
                expires_at: self.expires_at,
                execution_condition: self.execution_condition,
                destination: self.destination,
                data: self.data,
            },
        )
    }
}

/// Validates the fields of a `Fulfill` before building it.
pub struct FulfillBuilder {
    pub fulfillment: Vec<u8>,
    pub data: Vec<u8>,
}

impl FulfillBuilder {
    /// The value the builder describes.
    pub open spec fn target(&self) -> FulfillV {
        FulfillV { fulfillment: self.fulfillment@, data: self.data@ }
    }

    /// Builds the packet when every field satisfies its constraint.
    pub fn build(self) -> (r: Result<Fulfill, ParseError>)
        ensures
            match r {
                Ok(f) => self.target().wf() && f@ == self.target(),
                Err(_) => !self.target().wf(),
            },
    {
        if self.fulfillment.len() != 32 {
            return Err(ParseError::InvalidLength);
        }
        if self.data.len() > 32767 {
            return Err(ParseError::InvalidLength);
        }
        Ok(Fulfill { fulfillment: self.fulfillment, data: self.data })
    }
}

/// Validates the fields of a `Reject` before building it.
pub struct RejectBuilder {
    pub code: ErrorCode,
    pub triggered_by: Vec<u8>,
    pub message: Vec<u8>,
    pub data: Vec<u8>,
}

impl RejectBuilder {
    /// The value the builder describes.
    pub open spec fn target(&self) -> RejectV {
        RejectV {
            code: self.code@,
            triggered_by: self.triggered_by@,
            message: self.message@,
            data: self.data@,
        }
    }

    /// Builds the packet when every field satisfies its constraint.
    pub fn build(self) -> (r: Result<Reject, ParseError>)
        ensures
            match r {
                Ok(j) => self.target().wf() && j@ == self.target(),
                Err(_) => !self.target().wf(),
            },
    {
        proof {
            use_type_invariant(&self.code);
        }
        if self.triggered_by.len() > 1023 {
            return Err(ParseError::InvalidAddress);
        }
        if self.message.len() > 8191 {
            return Err(ParseError::InvalidLength);
        }
        if self.data.len() > 32767 {
            return Err(ParseError::InvalidLength);
        }
        Ok(
            Reject {
                code: self.code,
                triggered_by: self.triggered_by,
                message: self.message,
                data: self.data,
            },
        )
    }
}

/// True when the timestamp satisfies its calendar invariant.
fn timestamp_wf_check(t: &Timestamp) -> (r: bool)
    ensures
        r == t.wf(),
{
    t.year <= 9999 && 1 <= t.month && t.month <= 12 && 1 <= t.day && (t.month >= 1 && t.month
        <= 12 && t.day <= crate::timestamp::days_in_month_of(t.year, t.month)) && t.hour <= 23
        && t.minute <= 59 && t.second <= 59 && t.millis <= 999
}

impl Prepare {
    /// Every `Prepare` satisfies the wire-format field constraints.
    #[verifier::type_invariant]
    pub open spec fn inv(self) -> bool {
        self@.wf()
    }

    /// The amount, in the sender's asset units at this hop.
    pub fn amount(&self) -> (r: u64)
        ensures
            r == self@.amount,
    {
        self.amount
    }

    /// The expiry of this prepare.
    pub fn expires_at(&self) -> (r: Timestamp)
        ensures
            r == self@.expires_at,
    {
        self.expires_at
    }

    /// The 32-byte execution condition.
    pub fn execution_condition(&self) -> (r: &Vec<u8>)
        ensures
            r@ == self@.execution_condition,
    {
        &self.execution_condition
    }

    /// The destination address bytes.
    pub fn destination(&self) -> (r: &Vec<u8>)
        ensures
            r@ == self@.destination,
    {
        &self.destination
    }

    /// The end-to-end data.
    pub fn data(&self) -> (r: &Vec<u8>)
        ensures
            r@ == self@.data,
    {
        &self.data
    }

    pub fn set_amount(&mut self, amount: u64)
        ensures
            final(self)@ == (PrepareV { amount, ..old(self)@ }),
    {
        proof {
            use_type_invariant(&*self);
        }
        self.amount = amount;
    }

    pub fn set_expires_at(&mut self, expires_at: Timestamp)
        requires
            expires_at.wf(),
        ensures
            final(self)@ == (PrepareV { expires_at, ..old(self)@ }),
    {
        proof {
            use_type_invariant(&*self);
        }
        self.expires_at = expires_at;
    }

    pub fn set_destination(&mut self, destination: Vec<u8>)
        requires
            addr_wf(destination@),
        ensures
            final(self)@ == (PrepareV { destination: destination@, ..old(self)@ }),
    {
        proof {
            use_type_invariant(&*self);
        }
        self.destination = destination;
    }

    pub fn set_data(&mut self, data: Vec<u8>)
        requires
            data@.len() <= 32767,
        ensures
            final(self)@ == (PrepareV { data: data@, ..old(self)@ }),
    {
        proof {
            use_type_invariant(&*self);
        }
        self.data = data;
    }

    /// The canonical wire bytes of this packet.
    pub fn encode(&self) -> (r: Vec<u8>)
        ensures
            r@ == spec_packet_bytes(PacketV::Prepare(self@)),
            self@.wf(),
    {
        proof {
            use_type_invariant(self);
            lemma_prepare_content_round_trip(self@);
        }
        let mut content: Vec<u8> = Vec::new();
        write_u64_be(&mut content, self.amount);
        write_timestamp(&mut content, &self.expires_at);
        append_bytes(&mut content, &self.execution_condition);
        write_var_octet(&mut content, &self.destination);
        write_var_octet(&mut content, &self.data);
        assert(content@ =~= spec_prepare_content(self@));
        let mut out: Vec<u8> = Vec::new();
        out.push(12);
        write_len_prefix(&mut out, content.len());
        append_bytes(&mut out, &content);
        assert(out@ =~= spec_packet_bytes(PacketV::Prepare(self@)));
        out
    }
}

impl Fulfill {
    /// Every `Fulfill` satisfies the wire-format field constraints.
    #[verifier::type_invariant]
    pub open spec fn inv(self) -> bool {
        self@.wf()
    }

    /// The 32-byte fulfillment.
    pub fn fulfillment(&self) -> (r: &Vec<u8>)
        ensures
            r@ == self@.fulfillment,
    {
        &self.fulfillment
    }

    /// The end-to-end data.
    pub fn data(&self) -> (r: &Vec<u8>)
        ensures
            r@ == self@.data,
    {
        &self.data
    }

    /// Consumes the packet, handing its data out.
    pub fn into_data(self) -> (r: Vec<u8>)
        ensures
            r@ == self@.data,
    {
        self.data
    }

    /// A copy of this packet.
    pub fn duplicate(&self) -> (r: Fulfill)
        ensures
            r@ == self@,
    {
        proof {
            use_type_invariant(self);
        }
        let r = Fulfill {
            fulfillment: clone_bytes(&self.fulfillment),
            data: clone_bytes(&self.data),
        };
        assert(r@ =~= self@);
        r
    }

    /// The canonical wire bytes of this packet.
    pub fn encode(&self) -> (r: Vec<u8>)
        ensures
            r@ == spec_packet_bytes(PacketV::Fulfill(self@)),
            self@.wf(),
    {
        proof {
            use_type_invariant(self);
            lemma_fulfill_content_round_trip(self@);
        }
        let mut content: Vec<u8> = Vec::new();
        append_bytes(&mut content, &self.fulfillment);
        write_var_octet(&mut content, &self.data);
        assert(content@ =~= spec_fulfill_content(self@));
        let mut out: Vec<u8> = Vec::new();
        out.push(13);
        write_len_prefix(&mut out, content.len());
        append_bytes(&mut out, &content);
        assert(out@ =~= spec_packet_bytes(PacketV::Fulfill(self@)));
        out
    }
}

impl Reject {
    /// Every `Reject` satisfies the wire-format field constraints.
    #[verifier::type_invariant]
    pub open spec fn inv(self) -> bool {
        self@.wf()
    }

    /// The three-byte error code.
    pub fn code(&self) -> (r: ErrorCode)
        ensures
            r@ == self@.code,
    {
        self.code
    }

    /// The address of the node that raised this reject.
    pub fn triggered_by(&self) -> (r: &Vec<u8>)
        ensures
            r@ == self@.triggered_by,
    {
        &self.triggered_by
    }

    /// The human-readable message.
    pub fn message(&self) -> (r: &Vec<u8>)
        ensures
            r@ == self@.message,
    {
        &self.message
    }

    /// The end-to-end data.
    pub fn data(&self) -> (r: &Vec<u8>)
        ensures
            r@ == self@.data,
    {
        &self.data
    }

    /// A copy of this packet.
    pub fn duplicate(&self) -> (r: Reject)
        ensures
            r@ == self@,
    {
        proof {
            use_type_invariant(self);
        }
        let r = Reject {
            code: self.code,
            triggered_by: clone_bytes(&self.triggered_by),
            message: clone_bytes(&self.message),
            data: clone_bytes(&self.data),
        };
        assert(r@ =~= self@);
        r
    }

    /// The canonical wire bytes of this packet.
    pub fn encode(&self) -> (r: Vec<u8>)
        ensures
            r@ == spec_packet_bytes(PacketV::Reject(self@)),
            self@.wf(),
    {
        proof {
            use_type_invariant(self);
            use_type_invariant(&self.code);
            lemma_reject_content_round_trip(self@);
        }
        let code = self.code.as_bytes();
        let mut content: Vec<u8> = Vec::new();
        content.push(code[0]);
        content.push(code[1]);
        content.push(code[2]);
        write_var_octet(&mut content, &self.triggered_by);
        write_var_octet(&mut content, &self.message);
        write_var_octet(&mut content, &self.data);
        assert(content@ =~= spec_reject_content(self@));
        let mut out: Vec<u8> = Vec::new();
        out.push(14);
        write_len_prefix(&mut out, content.len());
        append_bytes(&mut out, &content);
        assert(out@ =~= spec_packet_bytes(PacketV::Reject(self@)));
        out
    }
}

impl Packet {
    /// The canonical wire bytes of this packet.
    pub fn encode(&self) -> (r: Vec<u8>)
        ensures
            r@ == spec_packet_bytes(self@),
            self@.wf(),
    {
        match self {
            Packet::Prepare(p) => p.encode(),
            Packet::Fulfill(f) => f.encode(),
            Packet::Reject(j) => j.encode(),
        }
    }
}

/// Decodes the content of a `Prepare`, already stripped of its envelope.
fn decode_prepare_content(c: &Vec<u8>) -> (r: Result<Prepare, ParseError>)
    ensures
        match r {
            Ok(p) => spec_parse_prepare_content(c@) == Ok::<PrepareV, ParseError>(p@) && p@.wf(),
            Err(e) => spec_parse_prepare_content(c@) == Err::<PrepareV, ParseError>(e),
        },
{
    let n = c.len();
    if n < 57 {
        return Err(ParseError::InvalidLength);
    }
    let amount = read_u64_be(c, 0);
    let expires_at = match read_timestamp(c, 8) {
        Some(t) => t,
        None => {
            return Err(ParseError::InvalidTimestamp);
        },
    };
    let execution_condition = subvec(c, 25, 57);
    let (dn, dhl) = match read_len_prefix(c, 57) {
        Some(p) => p,
        None => {
            return Err(ParseError::InvalidLength);
        },
    };
    if dn > n - 57 - dhl {
        return Err(ParseError::InvalidLength);
    }
    if dn < 1 || dn > 1023 {
        return Err(ParseError::InvalidAddress);
    }
    let destination = subvec(c, 57 + dhl, 57 + dhl + dn);
    let i = 57 + dhl + dn;
    let (an, ahl) = match read_len_prefix(c, i) {
        Some(p) => p,
        None => {
            return Err(ParseError::InvalidLength);
        },
    };
    if i + ahl + an != n {
        return Err(ParseError::InvalidLength);
    }
    if an > 32767 {
        return Err(ParseError::InvalidLength);
    }
    let data = subvec(c, i + ahl, n);
    let p = Prepare { amount, expires_at, execution_condition, destination, data };
    assert(spec_parse_prepare_content(c@) == Ok::<PrepareV, ParseError>(p@));
    Ok(p)
}

/// Decodes the content of a `Fulfill`, already stripped of its envelope.
fn decode_fulfill_content(c: &Vec<u8>) -> (r: Result<Fulfill, ParseError>)
    ensures
        match r {
            Ok(f) => spec_parse_fulfill_content(c@) == Ok::<FulfillV, ParseError>(f@) && f@.wf(),
            Err(e) => spec_parse_fulfill_content(c@) == Err::<FulfillV, ParseError>(e),
        },
{
    let n = c.len();
    if n < 32 {
        return Err(ParseError::InvalidLength);
    }
    let fulfillment = subvec(c, 0, 32);
    let (an, ahl) = match read_len_prefix(c, 32) {
        Some(p) => p,
        None => {
            return Err(ParseError::InvalidLength);
        },
    };
    if 32 + ahl + an != n {
        return Err(ParseError::InvalidLength);
    }
    if an > 32767 {
        return Err(ParseError::InvalidLength);
    }
    let data = subvec(c, 32 + ahl, n);
    let f = Fulfill { fulfillment, data };
    assert(spec_parse_fulfill_content(c@) == Ok::<FulfillV, ParseError>(f@));
    Ok(f)
}

/// Decodes the content of a `Reject`, already stripped of its envelope.
fn decode_reject_content(c: &Vec<u8>) -> (r: Result<Reject, ParseError>)
    ensures
        match r {
            Ok(j) => spec_parse_reject_content(c@) == Ok::<RejectV, ParseError>(j@) && j@.wf(),
            Err(e) => spec_parse_reject_content(c@) == Err::<RejectV, ParseError>(e),
        },
{
    let n = c.len();
    if n < 3 {
        return Err(ParseError::InvalidLength);
    }
    assert(c@.subrange(0, 3)[0] == c@[0] && c@.subrange(0, 3)[1] == c@[1] && c@.subrange(0, 3)[2]
        == c@[2]);
    if c[0] > 127 || c[1] > 127 || c[2] > 127 {
        assert(!code_bytes_wf(c@.subrange(0, 3)));
        return Err(ParseError::InvalidErrorCode);
    }
    let code = ErrorCode::new([c[0], c[1], c[2]]);
    assert(code@ =~= c@.subrange(0, 3));
    let (tn, thl) = match read_len_prefix(c, 3) {
        Some(p) => p,
        None => {
            return Err(ParseError::InvalidLength);
        },
    };
    if tn > n - 3 - thl {
        return Err(ParseError::InvalidLength);
    }
    if tn > 1023 {
        return Err(ParseError::InvalidAddress);
    }
    let triggered_by = subvec(c, 3 + thl, 3 + thl + tn);
    let mi = 3 + thl + tn;
    let (mn, mhl) = match read_len_prefix(c, mi) {
        Some(p) => p,
        None => {
            return Err(ParseError::InvalidLength);
        },
    };
    if mn > n - mi - mhl {
        return Err(ParseError::InvalidLength);
    }
    if mn > 8191 {
        return Err(ParseError::InvalidLength);
    }
    let message = subvec(c, mi + mhl, mi + mhl + mn);
    let di = mi + mhl + mn;
    let (dn, dhl) = match read_len_prefix(c, di) {
        Some(p) => p,
        None => {
            return Err(ParseError::InvalidLength);
        },
    };
    if di + dhl + dn != n {
        return Err(ParseError::InvalidLength);
    }
    if dn > 32767 {
        return Err(ParseError::InvalidLength);
    }
    let data = subvec(c, di + dhl, n);
    let j = Reject { code, triggered_by, message, data };
    assert(spec_parse_reject_content(c@) == Ok::<RejectV, ParseError>(j@));
    Ok(j)
}

/// Strips the envelope of a packet: checks the length prefix and that it
/// covers exactly the rest of the input, and hands the content out.
fn decode_envelope(bytes: &Vec<u8>) -> (r: Result<Vec<u8>, ParseError>)
    requires
        bytes@.len() >= 1,
    ensures
        match r {
            Ok(c) => spec_parse_envelope(bytes@) == Ok::<Seq<u8>, ParseError>(c@),
            Err(e) => spec_parse_envelope(bytes@) == Err::<Seq<u8>, ParseError>(e),
        },
{
    let n = bytes.len();
    let (cn, hl) = match read_len_prefix(bytes, 1) {
        Some(p) => p,
        None => {
            return Err(ParseError::InvalidLength);
        },
    };
    if cn != n - 1 - hl {
        return Err(ParseError::InvalidLength);
    }
    Ok(subvec(bytes, 1 + hl, n))
}

/// Decodes a whole ILP packet from its wire bytes.
///
/// The result is exactly what the specification parser says of the bytes:
/// a decoded packet is well-formed and parses from the input, and an error
/// comes back if and only if the specification parser rejects the input,
/// with the same reason.
pub fn decode(bytes: &Vec<u8>) -> (r: Result<Packet, ParseError>)
    ensures
        match r {
            Ok(p) => spec_parse_packet(bytes@) == Ok::<PacketV, ParseError>(p@) && p@.wf(),
            Err(e) => spec_parse_packet(bytes@) == Err::<PacketV, ParseError>(e),
        },
{
    if bytes.len() == 0 {
        return Err(ParseError::InvalidType);
    }
    let tag = bytes[0];
    if tag == 12 {
        let content = match decode_envelope(bytes) {
            Ok(c) => c,
            Err(e) => {
                return Err(e);
            },
        };
        match decode_prepare_content(&content) {
            Ok(p) => Ok(Packet::Prepare(p)),
            Err(e) => Err(e),
        }
    } else if tag == 13 {
        let content = match decode_envelope(bytes) {
            Ok(c) => c,
            Err(e) => {
                return Err(e);
            },
        };
        match decode_fulfill_content(&content) {
            Ok(f) => Ok(Packet::Fulfill(f)),
            Err(e) => Err(e),
        }
    } else if tag == 14 {
        let content = match decode_envelope(bytes) {
            Ok(c) => c,
            Err(e) => {
                return Err(e);
            },
        };
        match decode_reject_content(&content) {
            Ok(j) => Ok(Packet::Reject(j)),
            Err(e) => Err(e),
        }
    } else {
        Err(ParseError::InvalidType)
    }
}

} // verus!
