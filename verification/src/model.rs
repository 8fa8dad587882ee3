//! The data that requests, workspaces and collections are made of.

pub mod auth;
pub mod body;
pub mod environment;
pub mod request;
pub mod workspace;

use vstd::prelude::*;

use crate::text::{eq_ignore_case, same_ignoring_case};

verus! {

/// An HTTP method.
#[derive(Debug, Clone, Copy, PartialEq, Eq, Structural)]
pub enum Method {
    Get,
    Post,
    Put,
    Patch,
    Delete,
    Head,
    Options,
    Trace,
}

impl Method {
    /// The method as it is written in a request line.
    pub open spec fn name(self) -> Seq<char> {
        match self {
            Method::Get => "GET"@,
            Method::Post => "POST"@,
            Method::Put => "PUT"@,
            Method::Patch => "PATCH"@,
            Method::Delete => "DELETE"@,
            Method::Head => "HEAD"@,
            Method::Options => "OPTIONS"@,
            Method::Trace => "TRACE"@,
        }
    }

    /// The method as it is written in a request line.
    pub fn as_str(&self) -> (r: &'static str)
        ensures
            r@ == self.name(),
    {
        match self {
            Method::Get => "GET",
            Method::Post => "POST",
            Method::Put => "PUT",
            Method::Patch => "PATCH",
            Method::Delete => "DELETE",
            Method::Head => "HEAD",
            Method::Options => "OPTIONS",
            Method::Trace => "TRACE",
        }
    }
}

/// Every method.
pub open spec fn all_methods() -> Seq<Method> {
    seq![
        Method::Get,
        Method::Post,
        Method::Put,
        Method::Patch,
        Method::Delete,
        Method::Head,
        Method::Options,
        Method::Trace,
    ]
}

/// The first of the first `n` methods that is written `s`, whatever the case.
pub open spec fn method_named(s: Seq<char>, n: int) -> Option<Method>
    decreases n,
{
    if n <= 0 || n > all_methods().len() {
        None
    } else {
        match method_named(s, n - 1) {
            Some(m) => Some(m),
            None => if same_ignoring_case(s, all_methods()[n - 1].name()) {
                Some(all_methods()[n - 1])
            } else {
                None
            },
        }
    }
}

impl Method {
    /// Every method.
    pub fn all() -> (r: Vec<Method>)
        ensures
            r@ == all_methods(),
    {
        let r = vec![
            Method::Get,
            Method::Post,
            Method::Put,
            Method::Patch,
            Method::Delete,
            Method::Head,
            Method::Options,
            Method::Trace,
        ];
        assert(r@ =~= all_methods());
        r
    }

    /// The method that is written `s`, whatever the case.
    pub fn parse(s: &str) -> (r: Option<Method>)
        ensures
            r == method_named(s@, 8),
    {
        let all = Method::all();
        let mut i: usize = 0;
        while i < all.len()
            invariant
                i <= all.len(),
                all@ == all_methods(),
                all@.len() == 8,
                method_named(s@, i as int) is None,
            decreases all.len() - i,
        {
            if eq_ignore_case(s, all[i].as_str()) {
                proof {
                    lemma_method_found(s@, i + 1, 8);
                }
                return Some(all[i]);
            }
            i += 1;
        }
        None
    }
}

proof fn lemma_method_found(s: Seq<char>, n: int, m: int)
    requires
        0 <= n <= m <= 8,
        method_named(s, n) is Some,
    ensures
        method_named(s, m) == method_named(s, n),
    decreases m,
{
    if n < m {
        lemma_method_found(s, n, m - 1);
    }
}

} // verus!
