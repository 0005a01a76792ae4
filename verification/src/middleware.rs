//! The middleware chain: pre and post hooks that run in reverse
//! registration order, each able to pass a request or response through,
//! replace it, or short-circuit with a response of its own.
//!
//! The engine fixes the order and the bookkeeping; the host program asks
//! which middleware runs next, invokes it, and feeds the outcome back.

use vstd::prelude::*;

use crate::request::Request;
use crate::response::Response;

verus! {

/// What a pre hook decides about a request.
#[derive(Debug)]
pub enum MiddleRequest {
    /// Keep going with the request unchanged.
    Continue,
    /// Keep going, but with this request instead.
    Replace(Request),
    /// Stop the chain: no later middleware and no route handler runs, and
    /// this response is sent.
    Send(Response),
}

/// What a post hook decides about a response.
#[derive(Debug)]
pub enum MiddleResponse {
    /// Keep going with the response unchanged.
    Continue,
    /// Keep going, but with this response instead.
    Replace(Response),
    /// Stop the chain and send this response.
    Send(Response),
}

/// Drives the pre hooks of `count` middleware over one request, last
/// registered first.  `current` names the middleware to run next;
/// `feed` applies its outcome.
#[derive(Debug)]
pub struct PreChain {
    /// The request as the chain currently sees it.
    pub req: Request,
    /// How many middleware have not run yet; the next to run is the one
    /// with index `remaining - 1`.
    pub remaining: usize,
    /// The short-circuit response, once a hook has sent one.
    pub halted: Option<Response>,
}

impl PreChain {
    /// Starts the chain over `count` registered middleware.
    pub fn start(count: usize, req: Request) -> (r: PreChain)
        ensures
            r.req == req,
            r.remaining == count,
            r.halted is None,
    {
        PreChain { req, remaining: count, halted: Option::None }
    }

    /// The index of the middleware to run next: indices descend from the
    /// last registered, and `None` means the chain is done.
    pub fn current(&self) -> (r: Option<usize>)
        ensures
            match r {
                Some(i) => self.halted is None && self.remaining > 0 && i + 1 == self.remaining,
                None => self.halted is Some || self.remaining == 0,
            },
    {
        if self.remaining > 0 && self.halted.is_none() {
            Some(self.remaining - 1)
        } else {
            None
        }
    }

    /// Applies the outcome of the middleware named by `current`:
    /// `Continue` moves on, `Replace` substitutes the request seen by
    /// every later stage, and `Send` halts the chain.
    pub fn feed(&mut self, outcome: MiddleRequest)
        requires
            old(self).halted is None,
            old(self).remaining > 0,
        ensures
            match outcome {
                MiddleRequest::Continue => final(self).req == old(self).req && final(self).remaining + 1 == old(self).remaining && final(self).halted is None,
                MiddleRequest::Replace(req2) => final(self).req == req2 && final(self).remaining
                    + 1 == old(self).remaining && final(self).halted is None,
                MiddleRequest::Send(res) => final(self).req == old(self).req && final(self).halted == Some(res),
            },
    {
        match outcome {
            MiddleRequest::Continue => {
                self.remaining = self.remaining - 1;
            },
            MiddleRequest::Replace(req2) => {
                self.req = req2;
                self.remaining = self.remaining - 1;
            },
            MiddleRequest::Send(res) => {
                self.halted = Option::Some(res);
            },
        }
    }

    /// Ends the chain, yielding the short-circuit response if a hook sent
    /// one, else the request every hook passed through.
    pub fn finish(self) -> (r: Result<Request, Response>)
        ensures
            match self.halted {
                Some(res) => r matches Err(e) && e == res,
                None => r matches Ok(req) && req == self.req,
            },
    {
        match self.halted {
            Option::Some(res) => Err(res),
            Option::None => Ok(self.req),
        }
    }
}

/// Drives the post hooks of `count` middleware over one response, last
/// registered first, exactly as [`PreChain`] does for requests.
#[derive(Debug)]
pub struct PostChain {
    /// The response as the chain currently sees it.
    pub res: Response,
    /// How many middleware have not run yet.
    pub remaining: usize,
    /// Whether a hook sent a response, ending the chain.
    pub halted: bool,
}

impl PostChain {
    /// Starts the chain over `count` registered middleware.
    pub fn start(count: usize, res: Response) -> (r: PostChain)
        ensures
            r.res == res,
            r.remaining == count,
            !r.halted,
    {
        PostChain { res, remaining: count, halted: false }
    }

    /// The index of the middleware to run next, as in
    /// [`PreChain::current`].
    pub fn current(&self) -> (r: Option<usize>)
        ensures
            match r {
                Some(i) => !self.halted && self.remaining > 0 && i + 1 == self.remaining,
                None => self.halted || self.remaining == 0,
            },
    {
        if self.remaining > 0 && !self.halted {
            Some(self.remaining - 1)
        } else {
            None
        }
    }

    /// Applies the outcome of the middleware named by `current`.
    pub fn feed(&mut self, outcome: MiddleResponse)
        requires
            !old(self).halted,
            old(self).remaining > 0,
        ensures
            match outcome {
                MiddleResponse::Continue => final(self).res == old(self).res && final(self).remaining + 1 == old(self).remaining && !final(self).halted,
                MiddleResponse::Replace(res2) => final(self).res == res2 && final(self).remaining
                    + 1 == old(self).remaining && !final(self).halted,
                MiddleResponse::Send(res2) => final(self).res == res2 && final(self).halted,
            },
    {
        match outcome {
            MiddleResponse::Continue => {
                self.remaining = self.remaining - 1;
            },
            MiddleResponse::Replace(res2) => {
                self.res = res2;
                self.remaining = self.remaining - 1;
            },
            MiddleResponse::Send(res2) => {
                self.res = res2;
                self.halted = true;
            },
        }
    }

    /// Ends the chain, yielding the response it settled on.
    pub fn finish(self) -> (r: Response)
        ensures
            r == self.res,
    {
        self.res
    }
}

} // verus!
