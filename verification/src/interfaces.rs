//! The record types that cross the sandbox boundary: structured mirrors of
//! HTTP messages, client addresses, outcomes, and the errors a host call
//! can answer with.

use vstd::prelude::*;
use crate::decision::{combine, spec_combine, Decision};
use crate::store::StoreError;
use crate::tags::{combine_tags, combined_tag_set, copy_strings, strictly_sorted, string_views, tag_set};

verus! {

/// One HTTP header: a name and opaque value bytes.
#[derive(Debug)]
pub struct HeaderInterface {
    /// The header name.
    pub name: String,
    /// The header value bytes.
    pub value: Vec<u8>,
}

/// The incoming HTTP request, frozen for the sandbox.
#[derive(Debug)]
pub struct RequestInterface {
    /// The request method.
    pub method: String,
    /// The request target.
    pub uri: String,
    /// The protocol version, as text.
    pub version: String,
    /// The ordered request headers.
    pub headers: Vec<HeaderInterface>,
    /// The body bytes of this chunk.
    pub chunk: Vec<u8>,
    /// Where this chunk starts in the body.
    pub chunk_start: u64,
    /// How many bytes the chunk holds.
    pub chunk_length: u64,
    /// Whether the body ends with this chunk.
    pub end_of_stream: bool,
}

/// An HTTP response crossing the sandbox boundary.
#[derive(Debug)]
pub struct ResponseInterface {
    /// The status code.
    pub status: u32,
    /// The ordered response headers.
    pub headers: Vec<HeaderInterface>,
    /// The body bytes of this chunk.
    pub chunk: Vec<u8>,
    /// Where this chunk starts in the body.
    pub chunk_start: u64,
    /// How many bytes the chunk holds.
    pub chunk_length: u64,
    /// Whether the body ends with this chunk.
    pub end_of_stream: bool,
}

/// A client address: four octets or eight 16-bit segments.
#[derive(Clone, Copy, Debug, PartialEq, Eq, Structural)]
pub enum IpInterface {
    /// A version-4 address.
    V4(u8, u8, u8, u8),
    /// A version-6 address.
    V6(u16, u16, u16, u16, u16, u16, u16, u16),
}

/// The coarse classification derived from a combined decision by the
/// router's thresholds; the engine only carries it through.
#[derive(Clone, Copy, Debug, PartialEq, Eq, Structural)]
pub enum OutcomeInterface {
    /// Confidently accepted.
    Trusted,
    /// Accepted.
    Accepted,
    /// Suspected but allowed.
    Suspected,
    /// Restricted.
    Restricted,
}

/// The primary output of one plugin instance, and likewise of a combined
/// group: a decision and the tags annotating it.
#[derive(Debug)]
pub struct DecisionComponents {
    /// The decision.
    pub decision: Decision,
    /// The tags annotating the decision.
    pub tags: Vec<String>,
}

/// The decisions of a group of components.
pub open spec fn component_decisions(cs: Seq<DecisionComponents>) -> Seq<Decision> {
    cs.map_values(|c: DecisionComponents| c.decision)
}

/// The tag lists of a group of components.
pub open spec fn component_tags(cs: Seq<DecisionComponents>) -> Seq<Vec<String>> {
    cs.map_values(|c: DecisionComponents| c.tags)
}

/// Combines a group of components under per-plugin weights: the decisions
/// fold through the evidence algebra and the tags union into a canonical
/// list.  An empty group yields the vacuous decision and no tags.
pub fn combine_components(components: &Vec<DecisionComponents>, weights: &Vec<u64>) -> (r:
    DecisionComponents)
    requires
        components@.len() == weights@.len(),
        forall|i: int|
            0 <= i < components@.len() ==> (#[trigger] components@[i]).decision.is_valid(),
    ensures
        r.decision == spec_combine(component_decisions(components@), weights@),
        r.decision.is_valid(),
        strictly_sorted(r.tags@),
        tag_set(r.tags@) == combined_tag_set(component_tags(components@)),
{
    let mut decisions: Vec<Decision> = Vec::new();
    let mut tag_lists: Vec<Vec<String>> = Vec::new();
    let mut i: usize = 0;
    while i < components.len()
        invariant
            0 <= i <= components@.len(),
            decisions@ == component_decisions(components@.take(i as int)),
            tag_lists@.len() == i,
            forall|k: int|
                0 <= k < i ==> string_views((#[trigger] tag_lists@[k])@) == string_views(
                    components@[k].tags@,
                ),
        decreases components@.len() - i,
    {
        decisions.push(components[i].decision);
        tag_lists.push(copy_strings(&components[i].tags));
        i = i + 1;
        proof {
            assert(decisions@ =~= component_decisions(components@.take(i as int)));
        }
    }
    proof {
        assert(components@.take(components@.len() as int) =~= components@);
        assert(component_decisions(components@).len() == weights@.len());
        assert forall|k: int|
            0 <= k < component_decisions(components@).len() implies (#[trigger] component_decisions(
            components@,
        )[k]).is_valid() by {
            assert(component_decisions(components@)[k] == components@[k].decision);
        }
    }
    let decision = combine(&decisions, weights);
    let tags = combine_tags(&tag_lists);
    proof {
        let ours = tag_lists@;
        let theirs = component_tags(components@);
        assert forall|v: Seq<char>| combined_tag_set(ours).contains(v) implies combined_tag_set(
            theirs,
        ).contains(v) by {
            let (a, k) = choose|a: int, k: int|
                #![trigger ours[a]@[k]]
                0 <= a < ours.len() && 0 <= k < ours[a]@.len() && ours[a]@[k]@ == v;
            assert(string_views(ours[a]@)[k] == v);
            assert(string_views(components@[a].tags@)[k] == v);
            assert(theirs[a]@[k]@ == v);
        }
        assert forall|v: Seq<char>| combined_tag_set(theirs).contains(v) implies combined_tag_set(
            ours,
        ).contains(v) by {
            let (a, k) = choose|a: int, k: int|
                #![trigger theirs[a]@[k]]
                0 <= a < theirs.len() && 0 <= k < theirs[a]@.len() && theirs[a]@[k]@ == v;
            assert(theirs[a]@ == components@[a].tags@);
            assert(string_views(components@[a].tags@)[k] == v);
            assert(string_views(ours[a]@)[k] == v);
            assert(ours[a]@[k]@ == v);
        }
        assert(combined_tag_set(ours) =~= combined_tag_set(theirs));
    }
    DecisionComponents { decision, tags }
}

/// A failure of an outbound HTTP host call, before anything is sent.
#[derive(Clone, Copy, Debug, PartialEq, Eq, Structural)]
pub enum OutboundHttpError {
    /// The URL did not parse, or has no domain.
    MalformedUrl,
    /// The method is not one the engine supports.
    UnsupportedMethod,
    /// No request is being assembled under the given id.
    UnknownRequestId,
    /// The instance has used up its request ids.
    RequestIdsExhausted,
}

/// A failure of a host call, reported to the guest.
#[derive(Clone, Copy, Debug, PartialEq, Eq, Structural)]
pub enum HostCallError {
    /// The call fell outside the plugin's permission grants.
    PermissionDenied,
    /// A host-mutable slot was read before the router set it.
    HostState,
    /// A granted environment variable is not present.
    MissingEnv,
    /// The call needs the remote store, and none is attached.
    StoreUnavailable,
    /// The store refused the operation.
    Store(StoreError),
    /// The outbound gateway refused the request.
    Http(OutboundHttpError),
    /// The decision handed over does not sum to one unit of mass.
    InvalidDecision,
}

} // verus!
