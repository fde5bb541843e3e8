//! The endpoint manager's rotating list of source base URLs.
//!
//! One logical fetch tries the front endpoint with the capped-backoff retry
//! policy; when the attempt budget is exhausted, the endpoint — not the call
//! — is rotated to the back, and the whole operation is retried against the
//! new front, indefinitely. Callers of the live tail therefore never see a
//! final failure from this component.

use vstd::prelude::*;

verus! {

/// The views of an endpoint list, element for element.
pub open spec fn endpoint_views(apis: Seq<String>) -> Seq<Seq<char>> {
    apis.map_values(|a: String| a@)
}

/// The ordered list of source base URLs; the front one is tried first.
#[derive(Debug)]
pub struct ApiManage {
    apis: Vec<String>,
}

impl ApiManage {
    /// The endpoints, front first.
    pub closed spec fn endpoints(&self) -> Seq<Seq<char>> {
        endpoint_views(self.apis@)
    }

    pub fn new(apis: Vec<String>) -> (r: ApiManage)
        ensures
            r.endpoints() == endpoint_views(apis@),
    {
        ApiManage { apis }
    }

    /// How many endpoints are configured.
    pub fn len(&self) -> (n: usize)
        ensures
            n == self.endpoints().len(),
    {
        self.apis.len()
    }

    /// The endpoint to try next.
    pub fn front(&self) -> (r: &String)
        requires
            self.endpoints().len() > 0,
        ensures
            r@ == self.endpoints()[0],
    {
        &self.apis[0]
    }

    /// Moves the front endpoint to the back, after it exhausted its retry
    /// budget. Every endpoint is kept: the list only changes order, and the
    /// former second endpoint becomes the front.
    pub fn rotate(&mut self)
        ensures
            final(self).endpoints().len() == old(self).endpoints().len(),
            old(self).endpoints().len() == 0 ==> *final(self) == *old(self),
            old(self).endpoints().len() > 0 ==> final(self).endpoints() == old(
                self,
            ).endpoints().subrange(1, old(self).endpoints().len() as int).push(
                old(self).endpoints()[0],
            ),
    {
        if self.apis.len() == 0 {
            return ;
        }
        let first = self.apis.remove(0);
        self.apis.push(first);
        proof {
            assert(endpoint_views(self.apis@) =~= endpoint_views(old(self).apis@).subrange(
                1,
                old(self).apis@.len() as int,
            ).push(endpoint_views(old(self).apis@)[0]));
        }
    }
}

} // verus!
