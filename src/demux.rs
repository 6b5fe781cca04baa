//! Classification of incoming requests on the shared listener: requests whose
//! `Content-Type` starts with `application/grpc` go to the gRPC handler, all
//! others to the REST router. Only the header is read.
use vstd::prelude::*;
use vstd::string::StrSliceExecFns;

verus! {

/// Which handler a request is routed to.
#[derive(Debug, Clone, Copy, PartialEq, Eq, Structural)]
pub enum Protocol {
    Rest,
    Grpc,
}

/// `p` is a prefix of `s`.
pub open spec fn starts_with(s: Seq<char>, p: Seq<char>) -> bool {
    p.len() <= s.len() && s.subrange(0, p.len() as int) == p
}

/// The content-type prefix that marks a gRPC request.
pub open spec fn grpc_prefix() -> Seq<char> {
    seq!['a', 'p', 'p', 'l', 'i', 'c', 'a', 't', 'i', 'o', 'n', '/', 'g', 'r', 'p', 'c']
}

/// Whether `s` begins with `prefix`, compared character by character.
pub fn has_prefix(s: &str, prefix: &str) -> (r: bool)
    ensures
        r == starts_with(s@, prefix@),
{
    let n = prefix.unicode_len();
    let m = s.unicode_len();
    if n > m {
        return false;
    }
    let mut i: usize = 0;
    while i < n
        invariant
            n == prefix@.len(),
            m == s@.len(),
            n <= m,
            i <= n,
            forall|j: int| 0 <= j < i ==> s@[j] == prefix@[j],
        decreases n - i,
    {
        if s.get_char(i) != prefix.get_char(i) {
            assert(s@.subrange(0, n as int)[i as int] != prefix@[i as int]);
            return false;
        }
        i = i + 1;
    }
    assert(s@.subrange(0, n as int) =~= prefix@);
    true
}

/// Routes a request by its `Content-Type` header, if it has one.
pub fn classify(content_type: Option<&str>) -> (r: Protocol)
    ensures
        r == (match content_type {
            Some(ct) => if starts_with(ct@, grpc_prefix()) {
                Protocol::Grpc
            } else {
                Protocol::Rest
            },
            None => Protocol::Rest,
        }),
{
    match content_type {
        Some(ct) => {
            let grpc = "application/grpc";
            proof {
                reveal_strlit("application/grpc");
                assert(grpc@ =~= grpc_prefix());
            }
            if has_prefix(ct, grpc) {
                Protocol::Grpc
            } else {
                Protocol::Rest
            }
        },
        None => Protocol::Rest,
    }
}

} // verus!
