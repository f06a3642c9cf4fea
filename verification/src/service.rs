//! The service abstraction.
//!
//! Every component of the node is a service: it takes a request that
//! carries an ILP `Prepare` together with the accounts involved, and
//! returns either a `Fulfill` or a `Reject`.  Incoming services see a
//! request before the next hop is chosen; outgoing services see it after.
//! Middleware composes by wrapping: a handler receives the request, the
//! per-request context, and the inner service, and may short-circuit,
//! forward unchanged, rewrite and forward, or transform the result.
//!
//! Each service or handler describes its behaviour through two
//! specification functions: `wf`, its well-formedness, preserved across
//! every call, and `post`, the relation one call establishes between the
//! state before and after, the request, the context, and the result.

use vstd::prelude::*;
use crate::address::Address;
use crate::oer::clone_bytes;
use crate::packet::{Fulfill, FulfillV, Prepare, PrepareV, Reject, RejectV};

verus! {

/// How a peered account routes relative to this node.
#[derive(Clone, Copy, Debug, PartialEq, Eq, Structural)]
pub enum RoutingRelation {
    Parent,
    Peer,
    Child,
    NonRoutingAccount,
}

/// The mathematical value of an account record.
#[verifier::ext_equal]
pub struct AccountV {
    pub id: u64,
    pub username: Seq<u8>,
    pub ilp_address: Seq<u8>,
    pub asset_scale: u8,
    pub asset_code: Seq<u8>,
    pub routing_relation: RoutingRelation,
}

/// An account as the core consumes it: a stable id, a username, an ILP
/// address, the asset parameters, and the peering's routing relation.
#[derive(Debug)]
pub struct Account {
    id: u64,
    username: Vec<u8>,
    ilp_address: Address,
    asset_scale: u8,
    asset_code: Vec<u8>,
    routing_relation: RoutingRelation,
}

impl View for Account {
    type V = AccountV;

    closed spec fn view(&self) -> AccountV {
        AccountV {
            id: self.id,
            username: self.username@,
            ilp_address: self.ilp_address@,
            asset_scale: self.asset_scale,
            asset_code: self.asset_code@,
            routing_relation: self.routing_relation,
        }
    }
}

impl Account {
    pub fn new(
        id: u64,
        username: Vec<u8>,
        ilp_address: Address,
        asset_scale: u8,
        asset_code: Vec<u8>,
        routing_relation: RoutingRelation,
    ) -> (r: Account)
        ensures
            r@ == (AccountV {
                id,
                username: username@,
                ilp_address: ilp_address@,
                asset_scale,
                asset_code: asset_code@,
                routing_relation,
            }),
    {
        Account { id, username, ilp_address, asset_scale, asset_code, routing_relation }
    }

    pub fn id(&self) -> (r: u64)
        ensures
            r == self@.id,
    {
        self.id
    }

    pub fn username(&self) -> (r: &Vec<u8>)
        ensures
            r@ == self@.username,
    {
        &self.username
    }

    pub fn ilp_address(&self) -> (r: &Address)
        ensures
            r@ == self@.ilp_address,
    {
        &self.ilp_address
    }

    pub fn asset_scale(&self) -> (r: u8)
        ensures
            r == self@.asset_scale,
    {
        self.asset_scale
    }

    pub fn asset_code(&self) -> (r: &Vec<u8>)
        ensures
            r@ == self@.asset_code,
    {
        &self.asset_code
    }

    pub fn routing_relation(&self) -> (r: RoutingRelation)
        ensures
            r == self@.routing_relation,
    {
        self.routing_relation
    }

    /// A copy of this account record.
    pub fn duplicate(&self) -> (r: Account)
        ensures
            r@ == self@,
    {
        Account {
            id: self.id,
            username: clone_bytes(&self.username),
            ilp_address: self.ilp_address.duplicate(),
            asset_scale: self.asset_scale,
            asset_code: clone_bytes(&self.asset_code),
            routing_relation: self.routing_relation,
        }
    }
}

/// The mathematical value of an incoming request.
#[verifier::ext_equal]
pub struct IncomingRequestV {
    pub from: AccountV,
    pub prepare: PrepareV,
}

/// An incoming ILP request: the prepare and the account it arrived from.
#[derive(Debug)]
pub struct IncomingRequest {
    pub from: Account,
    pub prepare: Prepare,
}

impl View for IncomingRequest {
    type V = IncomingRequestV;

    open spec fn view(&self) -> IncomingRequestV {
        IncomingRequestV { from: self.from@, prepare: self.prepare@ }
    }
}

/// The mathematical value of an outgoing request.
#[verifier::ext_equal]
pub struct OutgoingRequestV {
    pub from: AccountV,
    pub to: AccountV,
    pub original_amount: u64,
    pub prepare: PrepareV,
}

/// An outgoing ILP request: the prepare with both hops chosen.
/// `original_amount` is the prepare's amount as it was when the next hop
/// was selected; later stages may rewrite `prepare.amount` for exchange
/// rates but never touch `original_amount`.
#[derive(Debug)]
pub struct OutgoingRequest {
    pub from: Account,
    pub to: Account,
    pub original_amount: u64,
    pub prepare: Prepare,
}

impl View for OutgoingRequest {
    type V = OutgoingRequestV;

    open spec fn view(&self) -> OutgoingRequestV {
        OutgoingRequestV {
            from: self.from@,
            to: self.to@,
            original_amount: self.original_amount,
            prepare: self.prepare@,
        }
    }
}

impl IncomingRequest {
    /// Sets the `to` account and turns this into an outgoing request,
    /// capturing the prepare's current amount as `original_amount`.
    pub fn into_outgoing(self, to: Account) -> (r: OutgoingRequest)
        ensures
            r@.from == self@.from,
            r@.to == to@,
            r@.original_amount == self@.prepare.amount,
            r@.prepare == self@.prepare,
    {
        let original_amount = self.prepare.amount();
        OutgoingRequest { from: self.from, to, original_amount, prepare: self.prepare }
    }
}

/// The mathematical value of a request context.
#[verifier::ext_equal]
pub struct RequestContextV {
    pub ilp_address: Seq<u8>,
}

/// The per-request snapshot of node-global state: the node's own ILP
/// address, taken once when the request enters and held unchanged for the
/// request's whole life, so that every stage observes the same address.
#[derive(Debug)]
pub struct RequestContext {
    ilp_address: Address,
}

impl View for RequestContext {
    type V = RequestContextV;

    closed spec fn view(&self) -> RequestContextV {
        RequestContextV { ilp_address: self.ilp_address@ }
    }
}

impl RequestContext {
    pub fn new(ilp_address: Address) -> (r: RequestContext)
        ensures
            r@.ilp_address == ilp_address@,
    {
        RequestContext { ilp_address }
    }

    /// The node's ILP address as this request observes it.
    pub fn ilp_address(&self) -> (r: &Address)
        ensures
            r@ == self@.ilp_address,
    {
        &self.ilp_address
    }
}

/// The view of a service result.
pub open spec fn result_view(r: &Result<Fulfill, Reject>) -> Result<FulfillV, RejectV> {
    match r {
        Ok(f) => Ok(f@),
        Err(j) => Err(j@),
    }
}

/// A handler of incoming requests: returns either a `Fulfill` or a
/// `Reject` for each request, under a fixed context snapshot.
pub trait IncomingService: Sized {
    /// The service's well-formedness, preserved across every call.
    spec fn wf(&self) -> bool;

    /// What one call promises, relating the service before and after the
    /// call, the request, the context, and the result.
    spec fn post(
        &self,
        next: Self,
        request: IncomingRequestV,
        context: RequestContextV,
        result: Result<FulfillV, RejectV>,
    ) -> bool;

    fn handle_request(&mut self, request: IncomingRequest, context: &RequestContext) -> (r: Result<
        Fulfill,
        Reject,
    >)
        requires
            old(self).wf(),
        ensures
            final(self).wf(),
            old(self).post(*final(self), request@, context@, result_view(&r)),
    ;
}

/// A sender of outgoing requests: the dual of [`IncomingService`], used
/// once the next hop is chosen.
pub trait OutgoingService: Sized {
    /// The service's well-formedness, preserved across every call.
    spec fn wf(&self) -> bool;

    /// What one call promises, relating the service before and after the
    /// call, the request, the context, and the result.
    spec fn post(
        &self,
        next: Self,
        request: OutgoingRequestV,
        context: RequestContextV,
        result: Result<FulfillV, RejectV>,
    ) -> bool;

    fn send_request(&mut self, request: OutgoingRequest, context: &RequestContext) -> (r: Result<
        Fulfill,
        Reject,
    >)
        requires
            old(self).wf(),
        ensures
            final(self).wf(),
            old(self).post(*final(self), request@, context@, result_view(&r)),
    ;
}

/// A middleware stage over an inner incoming service.  The handler is
/// called with the request, the context and the inner service; it may
/// short-circuit, forward unchanged, rewrite and forward, or transform the
/// inner result.
pub trait IncomingHandler<I: IncomingService>: Sized {
    /// The handler's well-formedness, preserved across every call.
    spec fn wf(&self) -> bool;

    /// What one call promises, relating the handler and the inner service
    /// before and after the call, the request, the context, and the result.
    spec fn post(
        &self,
        next: Self,
        inner: I,
        inner_next: I,
        request: IncomingRequestV,
        context: RequestContextV,
        result: Result<FulfillV, RejectV>,
    ) -> bool;

    fn handle(
        &mut self,
        request: IncomingRequest,
        context: &RequestContext,
        inner: &mut I,
    ) -> (r: Result<Fulfill, Reject>)
        requires
            old(self).wf(),
            old(inner).wf(),
        ensures
            final(self).wf(),
            final(inner).wf(),
            old(self).post(
                *final(self),
                *old(inner),
                *final(inner),
                request@,
                context@,
                result_view(&r),
            ),
    ;
}

/// A middleware stage over an inner outgoing service.
pub trait OutgoingHandler<I: OutgoingService>: Sized {
    /// The handler's well-formedness, preserved across every call.
    spec fn wf(&self) -> bool;

    /// What one call promises, relating the handler and the inner service
    /// before and after the call, the request, the context, and the result.
    spec fn post(
        &self,
        next: Self,
        inner: I,
        inner_next: I,
        request: OutgoingRequestV,
        context: RequestContextV,
        result: Result<FulfillV, RejectV>,
    ) -> bool;

    fn handle(
        &mut self,
        request: OutgoingRequest,
        context: &RequestContext,
        inner: &mut I,
    ) -> (r: Result<Fulfill, Reject>)
        requires
            old(self).wf(),
            old(inner).wf(),
        ensures
            final(self).wf(),
            final(inner).wf(),
            old(self).post(
                *final(self),
                *old(inner),
                *final(inner),
                request@,
                context@,
                result_view(&r),
            ),
    ;
}

/// A service that wraps another one with a handler that is called on every
/// request.  This composes middleware without a new struct and trait
/// implementation for each stage.
pub struct WrappedService<F, I> {
    pub f: F,
    pub inner: I,
}

impl<F, I> WrappedService<F, I> where F: IncomingHandler<I>, I: IncomingService {
    /// Wraps `inner` so that `f` handles each incoming request.
    pub fn wrap_incoming(inner: I, f: F) -> (r: WrappedService<F, I>)
        ensures
            r.f == f,
            r.inner == inner,
    {
        WrappedService { f, inner }
    }
}

impl<F, I> IncomingService for WrappedService<F, I> where F: IncomingHandler<I>, I: IncomingService {
    open spec fn wf(&self) -> bool {
        self.f.wf() && self.inner.wf()
    }

    open spec fn post(
        &self,
        next: Self,
        request: IncomingRequestV,
        context: RequestContextV,
        result: Result<FulfillV, RejectV>,
    ) -> bool {
        self.f.post(next.f, self.inner, next.inner, request, context, result)
    }

    fn handle_request(&mut self, request: IncomingRequest, context: &RequestContext) -> (r: Result<
        Fulfill,
        Reject,
    >) {
        self.f.handle(request, context, &mut self.inner)
    }
}

impl<F, I> WrappedService<F, I> where F: OutgoingHandler<I>, I: OutgoingService {
    /// Wraps `inner` so that `f` handles each outgoing request.
    pub fn wrap_outgoing(inner: I, f: F) -> (r: WrappedService<F, I>)
        ensures
            r.f == f,
            r.inner == inner,
    {
        WrappedService { f, inner }
    }
}

impl<F, I> OutgoingService for WrappedService<F, I> where F: OutgoingHandler<I>, I: OutgoingService {
    open spec fn wf(&self) -> bool {
        self.f.wf() && self.inner.wf()
    }

    open spec fn post(
        &self,
        next: Self,
        request: OutgoingRequestV,
        context: RequestContextV,
        result: Result<FulfillV, RejectV>,
    ) -> bool {
        self.f.post(next.f, self.inner, next.inner, request, context, result)
    }

    fn send_request(&mut self, request: OutgoingRequest, context: &RequestContext) -> (r: Result<
        Fulfill,
        Reject,
    >) {
        self.f.handle(request, context, &mut self.inner)
    }
}

/// A service created by [`incoming_service_fn`] or [`outgoing_service_fn`]:
/// it calls the given plain function for each request.
pub struct ServiceFn<F> {
    pub handler: F,
}

/// Creates an [`IncomingService`] that calls the given handler for each
/// request.
pub fn incoming_service_fn<F: Fn(IncomingRequest, &RequestContext) -> Result<Fulfill, Reject>>(
    handler: F,
) -> (r: ServiceFn<F>)
    ensures
        r.handler == handler,
{
    ServiceFn { handler }
}

/// Creates an [`OutgoingService`] that calls the given handler for each
/// request.
pub fn outgoing_service_fn<F: Fn(OutgoingRequest, &RequestContext) -> Result<Fulfill, Reject>>(
    handler: F,
) -> (r: ServiceFn<F>)
    ensures
        r.handler == handler,
{
    ServiceFn { handler }
}

impl<F: Fn(IncomingRequest, &RequestContext) -> Result<Fulfill, Reject>> IncomingService
    for ServiceFn<F> {
    /// The handler must accept every request.
    open spec fn wf(&self) -> bool {
        forall|req: IncomingRequest, ctx: &RequestContext|
            #[trigger] self.handler.requires((req, ctx))
    }

    /// One call promises whatever the handler's own contract promises of
    /// some request and context with these values.
    open spec fn post(
        &self,
        next: Self,
        request: IncomingRequestV,
        context: RequestContextV,
        result: Result<FulfillV, RejectV>,
    ) -> bool {
        &&& next == *self
        &&& exists|req: IncomingRequest, ctx: RequestContext, res: Result<Fulfill, Reject>|
            {
                &&& req@ == request
                &&& ctx@ == context
                &&& result_view(&res) == result
                &&& #[trigger] self.handler.ensures((req, &ctx), res)
            }
    }

    fn handle_request(&mut self, request: IncomingRequest, context: &RequestContext) -> (r: Result<
        Fulfill,
        Reject,
    >) {
        let ghost request0 = request;
        let r = (self.handler)(request, context);
        proof {
            assert(self.handler.ensures((request0, &*context), r));
        }
        r
    }
}

impl<F: Fn(OutgoingRequest, &RequestContext) -> Result<Fulfill, Reject>> OutgoingService
    for ServiceFn<F> {
    /// The handler must accept every request.
    open spec fn wf(&self) -> bool {
        forall|req: OutgoingRequest, ctx: &RequestContext|
            #[trigger] self.handler.requires((req, ctx))
    }

    /// One call promises whatever the handler's own contract promises of
    /// some request and context with these values.
    open spec fn post(
        &self,
        next: Self,
        request: OutgoingRequestV,
        context: RequestContextV,
        result: Result<FulfillV, RejectV>,
    ) -> bool {
        &&& next == *self
        &&& exists|req: OutgoingRequest, ctx: RequestContext, res: Result<Fulfill, Reject>|
            {
                &&& req@ == request
                &&& ctx@ == context
                &&& result_view(&res) == result
                &&& #[trigger] self.handler.ensures((req, &ctx), res)
            }
    }

    fn send_request(&mut self, request: OutgoingRequest, context: &RequestContext) -> (r: Result<
        Fulfill,
        Reject,
    >) {
        let ghost request0 = request;
        let r = (self.handler)(request, context);
        proof {
            assert(self.handler.ensures((request0, &*context), r));
        }
        r
    }
}

/// A leaf service for the end of a chain: it records the last request it
/// saw and answers every request with a fixed, preconfigured result.
pub struct RecordingService {
    reply: Result<Fulfill, Reject>,
    last: Option<IncomingRequest>,
}

impl RecordingService {
    /// The reply this service gives to every request.
    pub closed spec fn spec_reply(&self) -> Result<FulfillV, RejectV> {
        result_view(&self.reply)
    }

    /// The last request this service saw.
    pub closed spec fn spec_last(&self) -> Option<IncomingRequestV> {
        match self.last {
            Some(ref q) => Some(q@),
            None => None,
        }
    }

    pub fn new(reply: Result<Fulfill, Reject>) -> (r: RecordingService)
        ensures
            r.spec_reply() == result_view(&reply),
            r.spec_last() is None,
    {
        RecordingService { reply, last: None }
    }

    /// The last request this service saw, if any.
    pub fn last_request(&self) -> (r: &Option<IncomingRequest>)
        ensures
            match r {
                Some(q) => self.spec_last() == Some(q@),
                None => self.spec_last() is None,
            },
    {
        &self.last
    }
}

impl IncomingService for RecordingService {
    open spec fn wf(&self) -> bool {
        true
    }

    open spec fn post(
        &self,
        next: Self,
        request: IncomingRequestV,
        context: RequestContextV,
        result: Result<FulfillV, RejectV>,
    ) -> bool {
        &&& result == self.spec_reply()
        &&& next.spec_reply() == self.spec_reply()
        &&& next.spec_last() == Some(request)
    }

    fn handle_request(&mut self, request: IncomingRequest, context: &RequestContext) -> (r: Result<
        Fulfill,
        Reject,
    >) {
        self.last = Some(request);
        match &self.reply {
            Ok(f) => Ok(f.duplicate()),
            Err(j) => Err(j.duplicate()),
        }
    }
}

} // verus!
