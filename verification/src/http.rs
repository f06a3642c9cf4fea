//! The compute side of the ILP-over-HTTP transport.
//!
//! A node terminates one peer link over HTTP: a `POST` whose body is a
//! binary `Prepare`.  The handler here checks the `Authorization` header,
//! authenticates against the store, bounds the body, decodes the prepare,
//! snapshots the node's ILP address into the request context, dispatches
//! into the incoming pipeline, and serializes whatever comes back —
//! fulfill or reject alike travel in a 200 response, so only transport
//! errors surface as HTTP errors.  The listener itself, being I/O, lives
//! outside this crate and calls [`HttpServer::handle`] with the header
//! and body it read.

use vstd::prelude::*;
use crate::address::{Address, bytes_eq};
use crate::oer::{clone_bytes, subvec};
use crate::packet::{
    decode, FulfillV, Packet, PacketV, RejectV, spec_packet_bytes, spec_parse_packet,
};
use crate::service::{
    Account, AccountV, IncomingRequest, IncomingRequestV, IncomingService, RequestContext,
    RequestContextV, result_view,
};
use crate::text::{spec_ascii_bytes, str_bytes};

verus! {

/// Max message size that is allowed to transfer from a request or a message.
pub const MAX_PACKET_SIZE: u64 = 40000;

/// A store that the HTTP transport authenticates against.  Stores are
/// implemented outside the core; [`InMemoryStore`] is the reference
/// implementation.
pub trait HttpStore: Sized {
    /// The account, if any, registered under the given credentials.
    spec fn spec_account_for(&self, username: Seq<u8>, password: Seq<u8>) -> Option<AccountV>;

    fn get_account_from_http_auth(&self, username: &Vec<u8>, password: &Vec<u8>) -> (r: Option<
        Account,
    >)
        ensures
            match r {
                Some(a) => self.spec_account_for(username@, password@) == Some(a@),
                None => self.spec_account_for(username@, password@) is None,
            },
    ;
}

/// A store that holds the node's own ILP address.  The address may be set
/// late — a child node learns it from its parent — and each request
/// snapshots it once into its context.
pub trait AddressStore: Sized {
    /// The node's ILP address as currently stored.
    spec fn spec_ilp_address(&self) -> Seq<u8>;

    fn get_ilp_address(&self) -> (r: Address)
        ensures
            r@ == self.spec_ilp_address(),
    ;

    fn set_ilp_address(&mut self, ilp_address: Address)
        ensures
            final(self).spec_ilp_address() == ilp_address@,
    ;
}

/// One account record with the HTTP credentials that reach it.
pub struct Credential {
    pub username: Vec<u8>,
    pub password: Vec<u8>,
    pub account: Account,
}

/// The account of the first credential entry matching the given username
/// and password, if any.
pub open spec fn spec_lookup(
    entries: Seq<Credential>,
    username: Seq<u8>,
    password: Seq<u8>,
) -> Option<AccountV>
    decreases entries.len(),
{
    if entries.len() == 0 {
        None
    } else if entries[0].username@ == username && entries[0].password@ == password {
        Some(entries[0].account@)
    } else {
        spec_lookup(entries.drop_first(), username, password)
    }
}

/// The reference store: a fixed list of accounts with their credentials,
/// and the node's ILP address.
pub struct InMemoryStore {
    accounts: Vec<Credential>,
    ilp_address: Address,
}

impl InMemoryStore {
    /// The credential entries of the store.
    pub closed spec fn spec_entries(&self) -> Seq<Credential> {
        self.accounts@
    }

    pub fn new(ilp_address: Address, accounts: Vec<Credential>) -> (r: InMemoryStore)
        ensures
            r.spec_ilp_address() == ilp_address@,
            r.spec_entries() == accounts@,
    {
        InMemoryStore { accounts, ilp_address }
    }
}

impl HttpStore for InMemoryStore {
    open spec fn spec_account_for(&self, username: Seq<u8>, password: Seq<u8>) -> Option<
        AccountV,
    > {
        spec_lookup(self.spec_entries(), username, password)
    }

    fn get_account_from_http_auth(&self, username: &Vec<u8>, password: &Vec<u8>) -> (r: Option<
        Account,
    >) {
        assert(self.accounts@.skip(0) =~= self.accounts@);
        let mut i: usize = 0;
        while i < self.accounts.len()
            invariant
                i <= self.accounts@.len(),
                spec_lookup(self.accounts@.skip(i as int), username@, password@) == spec_lookup(
                    self.accounts@,
                    username@,
                    password@,
                ),
            decreases self.accounts@.len() - i,
        {
            assert(self.accounts@.skip(i as int)[0] == self.accounts@[i as int]);
            let entry = &self.accounts[i];
            if bytes_eq(&entry.username, username) && bytes_eq(&entry.password, password) {
                return Some(entry.account.duplicate());
            }
            assert(self.accounts@.skip(i as int).drop_first() =~= self.accounts@.skip(
                i as int + 1,
            ));
            i = i + 1;
        }
        assert(self.accounts@.skip(i as int) =~= Seq::<Credential>::empty());
        None
    }
}

impl AddressStore for InMemoryStore {
    closed spec fn spec_ilp_address(&self) -> Seq<u8> {
        self.ilp_address@
    }

    fn get_ilp_address(&self) -> (r: Address) {
        self.ilp_address.duplicate()
    }

    fn set_ilp_address(&mut self, ilp_address: Address) {
        self.ilp_address = ilp_address;
    }
}

/// The ASCII bytes `Bearer `, the scheme prefix of an authorization
/// header.
pub open spec fn spec_bearer_prefix() -> Seq<u8> {
    spec_ascii_bytes("Bearer "@)
}

/// The position of the first colon in `t` at or after `i`, or -1.
pub open spec fn spec_first_colon(t: Seq<u8>, i: int) -> int
    recommends
        0 <= i <= t.len(),
    decreases t.len() - i,
{
    if i < 0 || i >= t.len() {
        -1
    } else if t[i] == 58 {
        i
    } else {
        spec_first_colon(t, i + 1)
    }
}

/// The credentials in an authorization header: an optional `Bearer `
/// scheme prefix, then `username:password`, split at the first colon.
pub open spec fn spec_parse_auth(h: Seq<u8>) -> Option<(Seq<u8>, Seq<u8>)> {
    let t = if h.len() >= 7 && h.subrange(0, 7) == spec_bearer_prefix() {
        h.subrange(7, h.len() as int)
    } else {
        h
    };
    let i = spec_first_colon(t, 0);
    if i < 0 {
        None
    } else {
        Some((t.subrange(0, i), t.subrange(i + 1, t.len() as int)))
    }
}

/// Splits an authorization header into username and password.
pub fn parse_auth(h: &Vec<u8>) -> (r: Option<(Vec<u8>, Vec<u8>)>)
    ensures
        match r {
            Some((u, p)) => spec_parse_auth(h@) == Some((u@, p@)),
            None => spec_parse_auth(h@) is None,
        },
{
    proof {
        reveal_strlit("Bearer ");
    }
    let bearer = str_bytes("Bearer ");
    let has_prefix = if h.len() >= 7 {
        let head = subvec(h, 0, 7);
        bytes_eq(&head, &bearer)
    } else {
        false
    };
    let t = if has_prefix {
        subvec(h, 7, h.len())
    } else {
        clone_bytes(h)
    };
    assert(t@ == (if h@.len() >= 7 && h@.subrange(0, 7) == spec_bearer_prefix() {
        h@.subrange(7, h@.len() as int)
    } else {
        h@
    }));
    let n = t.len();
    let mut i: usize = 0;
    while i < n
        invariant
            i <= n,
            n == t@.len(),
            t@ == (if h@.len() >= 7 && h@.subrange(0, 7) == spec_bearer_prefix() {
                h@.subrange(7, h@.len() as int)
            } else {
                h@
            }),
            spec_first_colon(t@, 0) == spec_first_colon(t@, i as int),
        decreases n - i,
    {
        if t[i] == 58 {
            let username = subvec(&t, 0, i);
            let password = subvec(&t, i + 1, n);
            return Some((username, password));
        }
        i = i + 1;
    }
    None
}

/// The credentials of an HTTP request: the parsed authorization header,
/// if one was sent and parses.
pub open spec fn spec_auth_of(authorization: Option<Vec<u8>>) -> Option<(Seq<u8>, Seq<u8>)> {
    match authorization {
        Some(h) => spec_parse_auth(h@),
        None => None,
    }
}

/// The account that the request's credentials name in the server's store,
/// if any.
pub open spec fn spec_account_of<I: IncomingService, S: HttpStore + AddressStore>(
    server: HttpServer<I, S>,
    authorization: Option<Vec<u8>>,
) -> Option<AccountV> {
    match spec_auth_of(authorization) {
        Some(cred) => server.store.spec_account_for(cred.0, cred.1),
        None => None,
    }
}

/// True when the bytes are a valid `Prepare` packet.
pub open spec fn spec_is_prepare(body: Seq<u8>) -> bool {
    spec_parse_packet(body) is Ok && spec_parse_packet(body)->Ok_0 is Prepare
}

/// The wire bytes of a pipeline result: the encoded fulfill or reject.
pub open spec fn spec_result_bytes(res: Result<FulfillV, RejectV>) -> Seq<u8> {
    match res {
        Ok(f) => spec_packet_bytes(PacketV::Fulfill(f)),
        Err(j) => spec_packet_bytes(PacketV::Reject(j)),
    }
}

/// The response of one HTTP exchange.  An accepted request always answers
/// 200 with the ILP result — fulfill or reject — as its body; the other
/// outcomes are the transport-level error statuses.
#[derive(Debug)]
pub enum HttpResponse {
    /// 200, `application/octet-stream`: the encoded `Fulfill` or `Reject`.
    Ilp(Vec<u8>),
    /// 401: the header is missing, unparseable, or names no account.
    Unauthorized,
    /// 413: the body exceeds [`MAX_PACKET_SIZE`].
    PayloadTooLarge,
    /// 400: the body is not a valid `Prepare`.
    InvalidPacket,
}

/// The HTTP transport server: authenticates each request against the
/// store and dispatches its prepare into the incoming pipeline.
pub struct HttpServer<I, S> {
    pub incoming: I,
    pub store: S,
}

impl<I, S> HttpServer<I, S> where I: IncomingService, S: HttpStore + AddressStore {
    pub fn new(incoming: I, store: S) -> (r: HttpServer<I, S>)
        ensures
            r.incoming == incoming,
            r.store == store,
    {
        HttpServer { incoming, store }
    }

    /// Handles one HTTP exchange: the `Authorization` header as received,
    /// and the raw body.
    ///
    /// The contract walks the transport's decision path.  A missing or
    /// unparseable header, or credentials the store does not know, answer
    /// 401 with the pipeline untouched.  An over-long body answers 413, a
    /// body that is not a valid `Prepare` answers 400, both with the
    /// pipeline untouched.  Otherwise the prepare is dispatched once into
    /// the incoming pipeline under a context holding the store's current
    /// ILP address, and the pipeline's result — fulfill or reject — is
    /// answered as its canonical encoding.
    #[verifier::rlimit(100)]
    pub fn handle(&mut self, authorization: Option<Vec<u8>>, body: Vec<u8>) -> (r: HttpResponse)
        requires
            old(self).incoming.wf(),
        ensures
            final(self).incoming.wf(),
            final(self).store == old(self).store,
            spec_auth_of(authorization) is None ==> r is Unauthorized && final(self).incoming
                == old(self).incoming,
            spec_auth_of(authorization) is Some && spec_account_of(
                *old(self),
                authorization,
            ) is None ==> r is Unauthorized && final(self).incoming == old(self).incoming,
            spec_auth_of(authorization) is Some && spec_account_of(*old(self), authorization)
                is Some && body@.len() > MAX_PACKET_SIZE as int ==> r is PayloadTooLarge
                && final(self).incoming == old(self).incoming,
            spec_auth_of(authorization) is Some && spec_account_of(*old(self), authorization)
                is Some && body@.len() <= MAX_PACKET_SIZE as int && !spec_is_prepare(body@)
                ==> r is InvalidPacket && final(self).incoming == old(self).incoming,
            spec_auth_of(authorization) is Some && spec_account_of(*old(self), authorization)
                is Some && body@.len() <= MAX_PACKET_SIZE as int && spec_is_prepare(body@)
                ==> exists|res: Result<FulfillV, RejectV>|
                {
                    &&& #[trigger] old(self).incoming.post(
                        final(self).incoming,
                        IncomingRequestV {
                            from: spec_account_of(*old(self), authorization)->Some_0,
                            prepare: spec_parse_packet(body@)->Ok_0->Prepare_0,
                        },
                        RequestContextV { ilp_address: old(self).store.spec_ilp_address() },
                        res,
                    )
                    &&& match r {
                        HttpResponse::Ilp(bytes) => bytes@ == spec_result_bytes(res),
                        _ => false,
                    }
                },
    {
        let header = match authorization {
            Some(h) => h,
            None => {
                return HttpResponse::Unauthorized;
            },
        };
        let (username, password) = match parse_auth(&header) {
            Some(pair) => pair,
            None => {
                return HttpResponse::Unauthorized;
            },
        };
        let account = match self.store.get_account_from_http_auth(&username, &password) {
            Some(a) => a,
            None => {
                return HttpResponse::Unauthorized;
            },
        };
        if body.len() > 40000 {
            return HttpResponse::PayloadTooLarge;
        }
        let ilp_address = self.store.get_ilp_address();
        let context = RequestContext::new(ilp_address);
        let prepare = match decode(&body) {
            Ok(Packet::Prepare(p)) => p,
            _ => {
                return HttpResponse::InvalidPacket;
            },
        };
        let request = IncomingRequest { from: account, prepare };
        let result = self.incoming.handle_request(request, &context);
        let ghost res0 = result_view(&result);
        let ghost acct0 = spec_account_of(*old(self), Some(header))->Some_0;
        let ghost prepare0 = spec_parse_packet(body@)->Ok_0->Prepare_0;
        let ghost context0 = RequestContextV { ilp_address: old(self).store.spec_ilp_address() };
        let bytes = match &result {
            Ok(f) => f.encode(),
            Err(j) => j.encode(),
        };
        let response = HttpResponse::Ilp(bytes);
        proof {
            assert(old(self).incoming.post(
                self.incoming,
                IncomingRequestV { from: acct0, prepare: prepare0 },
                context0,
                res0,
            ));
            assert(match response {
                HttpResponse::Ilp(b) => b@ == spec_result_bytes(res0),
                _ => false,
            });
            assert(exists|res: Result<FulfillV, RejectV>|
                {
                    &&& #[trigger] old(self).incoming.post(
                        self.incoming,
                        IncomingRequestV { from: acct0, prepare: prepare0 },
                        context0,
                        res,
                    )
                    &&& match response {
                        HttpResponse::Ilp(b) => b@ == spec_result_bytes(res),
                        _ => false,
                    }
                });
        }
        response
    }
}

} // verus!
