//! Services that hand a payload to every call.
//!
//! A server is a function of a request. What the function needs besides the
//! request, the parameters of the server or the scene, travels with it as a
//! payload, and each call gets a copy of its own.

use vstd::prelude::*;

verus! {

/// A function that makes a service for each connection, with the payload
/// that each service gets a copy of.
pub struct MakePayloadServiceFn<F, T> {
    pub f: F,
    pub payload: T,
}

/// A function that answers requests of type `R`, with the payload that each
/// call gets a copy of.
pub struct PayloadServiceFn<F, R, T> {
    pub f: F,
    pub payload: T,
    pub _req: core::marker::PhantomData<R>,
}

/// A maker of services from `f` and `payload`.
pub fn make_payload_service<F, T>(f: F, payload: T) -> (service: MakePayloadServiceFn<F, T>)
    ensures
        service.f == f,
        service.payload == payload,
{
    MakePayloadServiceFn { f, payload }
}

/// A service from `f` and `payload`.
pub fn payload_service<F, R, T>(f: F, payload: T) -> (service: PayloadServiceFn<F, R, T>)
    ensures
        service.f == f,
        service.payload == payload,
{
    PayloadServiceFn { f, payload, _req: core::marker::PhantomData }
}

impl<F, T: Clone> MakePayloadServiceFn<F, T> {
    /// Makes the service for `target`: calls the function with the target
    /// and a copy of the payload.
    pub fn call<Target, Ret>(&self, target: Target) -> (ret: Ret) where F: Fn(Target, T) -> Ret
        requires
            forall|t: Target, p: T| call_requires(self.f, (t, p)),
        ensures
            exists|p: T| cloned(self.payload, p) && #[trigger] call_ensures(self.f, (target, p), ret),
    {
        let p: T = self.payload.clone();
        let f = &self.f;
        f(target, p)
    }
}

impl<F, R, T: Clone> PayloadServiceFn<F, R, T> {
    /// Answers `req`: calls the function with the request and a copy of the
    /// payload.
    pub fn call<Ret>(&self, req: R) -> (ret: Ret) where F: Fn(R, T) -> Ret
        requires
            forall|r: R, p: T| call_requires(self.f, (r, p)),
        ensures
            exists|p: T| cloned(self.payload, p) && #[trigger] call_ensures(self.f, (req, p), ret),
    {
        let p: T = self.payload.clone();
        let f = &self.f;
        f(req, p)
    }
}

} // verus!
