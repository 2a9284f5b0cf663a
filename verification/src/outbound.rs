//! Outbound HTTP: guest-initiated requests are assembled in three steps,
//! because composite records do not cross the sandbox boundary well.
//!
//! A guest first names a method and URL and receives a request id, then
//! adds headers under that id, then hands over the body, which completes
//! the request.  Ids are dense, assigned from a monotone counter, so an id
//! is never reused within an instance.  The completed request is handed to
//! the unverified sender; nothing is sent from here.

use vstd::prelude::*;
use vstd::string::*;
use crate::interfaces::{HeaderInterface, OutboundHttpError};

verus! {

/// The HTTP methods the engine lets guests use.
#[derive(Clone, Copy, Debug, PartialEq, Eq, Structural)]
pub enum HttpMethod {
    /// GET
    Get,
    /// HEAD
    Head,
    /// POST
    Post,
    /// PUT
    Put,
    /// PATCH
    Patch,
    /// DELETE
    Delete,
    /// OPTIONS
    Options,
    /// TRACE
    Trace,
}

/// Two characters are equal up to ASCII case.
pub open spec fn ascii_case_eq_char(c: char, d: char) -> bool {
    (c as u32) == (d as u32) || ((c as u32) == (d as u32) + 32 && 97 <= (c as u32) <= 122) || ((
    d as u32) == (c as u32) + 32 && 97 <= (d as u32) <= 122)
}

/// Two character sequences are equal up to ASCII case.
pub open spec fn ascii_case_eq(a: Seq<char>, b: Seq<char>) -> bool {
    a.len() == b.len() && forall|i: int|
        0 <= i < a.len() ==> #[trigger] ascii_case_eq_char(a[i], b[i])
}

/// The method a string names, up to ASCII case, if any.
pub open spec fn spec_parse_method(s: Seq<char>) -> Option<HttpMethod> {
    if ascii_case_eq(s, "GET"@) {
        Some(HttpMethod::Get)
    } else if ascii_case_eq(s, "HEAD"@) {
        Some(HttpMethod::Head)
    } else if ascii_case_eq(s, "POST"@) {
        Some(HttpMethod::Post)
    } else if ascii_case_eq(s, "PUT"@) {
        Some(HttpMethod::Put)
    } else if ascii_case_eq(s, "PATCH"@) {
        Some(HttpMethod::Patch)
    } else if ascii_case_eq(s, "DELETE"@) {
        Some(HttpMethod::Delete)
    } else if ascii_case_eq(s, "OPTIONS"@) {
        Some(HttpMethod::Options)
    } else if ascii_case_eq(s, "TRACE"@) {
        Some(HttpMethod::Trace)
    } else {
        None
    }
}

/// Decides whether two strings are equal up to ASCII case.
fn ascii_case_eq_str(a: &str, b: &str) -> (r: bool)
    ensures
        r == ascii_case_eq(a@, b@),
{
    let la = a.unicode_len();
    let lb = b.unicode_len();
    if la != lb {
        return false;
    }
    let mut i: usize = 0;
    while i < la
        invariant
            0 <= i <= la,
            la == a@.len(),
            la == b@.len(),
            forall|k: int| 0 <= k < i ==> #[trigger] ascii_case_eq_char(a@[k], b@[k]),
        decreases la - i,
    {
        let ca = a.get_char(i) as u32;
        let cb = b.get_char(i) as u32;
        let same = ca == cb || (ca == cb + 32 && 97 <= ca && ca <= 122) || (cb == ca + 32 && 97
            <= cb && cb <= 122);
        if !same {
            proof {
                assert(!ascii_case_eq_char(a@[i as int], b@[i as int]));
            }
            return false;
        }
        i = i + 1;
    }
    true
}

/// Normalizes a method string, case-insensitively, to the method it names.
pub fn parse_method(s: &str) -> (r: Option<HttpMethod>)
    ensures
        r == spec_parse_method(s@),
{
    if ascii_case_eq_str(s, "GET") {
        Some(HttpMethod::Get)
    } else if ascii_case_eq_str(s, "HEAD") {
        Some(HttpMethod::Head)
    } else if ascii_case_eq_str(s, "POST") {
        Some(HttpMethod::Post)
    } else if ascii_case_eq_str(s, "PUT") {
        Some(HttpMethod::Put)
    } else if ascii_case_eq_str(s, "PATCH") {
        Some(HttpMethod::Patch)
    } else if ascii_case_eq_str(s, "DELETE") {
        Some(HttpMethod::Delete)
    } else if ascii_case_eq_str(s, "OPTIONS") {
        Some(HttpMethod::Options)
    } else if ascii_case_eq_str(s, "TRACE") {
        Some(HttpMethod::Trace)
    } else {
        None
    }
}

/// The canonical name of a method.
pub open spec fn spec_method_name(m: HttpMethod) -> Seq<char> {
    match m {
        HttpMethod::Get => "GET"@,
        HttpMethod::Head => "HEAD"@,
        HttpMethod::Post => "POST"@,
        HttpMethod::Put => "PUT"@,
        HttpMethod::Patch => "PATCH"@,
        HttpMethod::Delete => "DELETE"@,
        HttpMethod::Options => "OPTIONS"@,
        HttpMethod::Trace => "TRACE"@,
    }
}

/// The canonical name of a method, for the sender.
pub fn method_name(m: HttpMethod) -> (r: &'static str)
    ensures
        r@ == spec_method_name(m),
{
    match m {
        HttpMethod::Get => "GET",
        HttpMethod::Head => "HEAD",
        HttpMethod::Post => "POST",
        HttpMethod::Put => "PUT",
        HttpMethod::Patch => "PATCH",
        HttpMethod::Delete => "DELETE",
        HttpMethod::Options => "OPTIONS",
        HttpMethod::Trace => "TRACE",
    }
}

/// The domain of an absolute URL, when the string parses as one and its
/// host is a name rather than an address.
pub uninterp spec fn url_domain(s: Seq<char>) -> Option<Seq<char>>;

/// Relies on url::Url::parse and url::Url::domain: parsing is a function
/// of the string alone, and `domain` answers the URL's host exactly when
/// the URL has one that is a name.
#[verifier::external_body]
pub(crate) fn parse_url_domain(uri: &str) -> (r: Option<String>)
    ensures
        r is Some <==> url_domain(uri@) is Some,
        r is Some ==> r->Some_0@ == url_domain(uri@)->Some_0,
{
    match url::Url::parse(uri) {
        Ok(u) => match u.domain() {
            Some(d) => Some(d.to_string()),
            None => None,
        },
        Err(_) => None,
    }
}

/// A request being assembled by a guest, keyed by its id.
#[derive(Debug)]
pub struct PendingRequest {
    /// The id `prepare` answered.
    pub id: u64,
    /// The method.
    pub method: HttpMethod,
    /// The absolute URL.
    pub uri: String,
    /// The headers added so far, in order.
    pub headers: Vec<HeaderInterface>,
}

/// A completed outbound request, ready for the unverified sender.
#[derive(Debug)]
pub struct OutboundRequest {
    /// The method.
    pub method: HttpMethod,
    /// The absolute URL.
    pub uri: String,
    /// The headers, in order.
    pub headers: Vec<HeaderInterface>,
    /// The body bytes; empty for no body.
    pub body: Vec<u8>,
}

/// No two pending requests share an id, and every id is below the counter.
pub open spec fn table_wf(s: Seq<PendingRequest>, next_id: u64) -> bool {
    (forall|i: int, j: int|
        0 <= i < j < s.len() ==> (#[trigger] s[i]).id != (#[trigger] s[j]).id) && (forall|i: int|
        0 <= i < s.len() ==> (#[trigger] s[i]).id < next_id)
}

/// Some pending request carries the id.
pub open spec fn table_has(s: Seq<PendingRequest>, id: u64) -> bool {
    exists|i: int| 0 <= i < s.len() && (#[trigger] s[i]).id == id
}

/// The index of the pending request carrying the id.
pub open spec fn table_idx(s: Seq<PendingRequest>, id: u64) -> int {
    choose|i: int| 0 <= i < s.len() && (#[trigger] s[i]).id == id
}

/// In a well-formed table, the request at any index is the one its id
/// finds.
proof fn lemma_table_at(s: Seq<PendingRequest>, next_id: u64, i: int)
    requires
        table_wf(s, next_id),
        0 <= i < s.len(),
    ensures
        table_has(s, s[i].id),
        table_idx(s, s[i].id) == i,
{
    assert(table_has(s, s[i].id));
    let j = table_idx(s, s[i].id);
    if j != i {
        if j < i {
            assert(s[j].id != s[i].id);
        } else {
            assert(s[i].id != s[j].id);
        }
    }
}

/// How `begin` steps the table: a fresh dense id on success, and no
/// change when the ids are spent.
pub open spec fn begin_step(
    pre: OutboundTable,
    post: OutboundTable,
    method: HttpMethod,
    uri: Seq<char>,
    r: Result<u64, OutboundHttpError>,
) -> bool {
    &&& post.wf()
    &&& (r is Err <==> pre.next_id == u64::MAX)
    &&& (r is Err ==> post == pre && r->Err_0 == OutboundHttpError::RequestIdsExhausted)
    &&& (r is Ok ==> ({
        let id = r->Ok_0;
        id == pre.next_id && post.next_id == pre.next_id + 1 && (post.spec_pending(id)
            matches Some(p) && p.id == id && p.method == method && p.uri@ == uri
            && p.headers@.len() == 0)
    }))
    &&& (r is Ok ==> forall|id2: u64|
        id2 != r->Ok_0 ==> post.spec_pending(id2) == pre.spec_pending(id2))
}

/// How `add_header` steps the table: one header appended under the id on
/// success, and no change when the id is unknown.
pub open spec fn add_header_step(
    pre: OutboundTable,
    post: OutboundTable,
    id: u64,
    name: Seq<char>,
    value: Seq<u8>,
    r: Result<(), OutboundHttpError>,
) -> bool {
    &&& post.wf()
    &&& (r is Err <==> pre.spec_pending(id) is None)
    &&& (r is Err ==> post == pre && r->Err_0 == OutboundHttpError::UnknownRequestId)
    &&& (r is Ok ==> ({
        let p0 = pre.spec_pending(id)->Some_0;
        post.spec_pending(id) matches Some(p) && p.id == id && p.method == p0.method && p.uri@
            == p0.uri@ && p.headers@.len() == p0.headers@.len() + 1 && (forall|k: int|
            0 <= k < p0.headers@.len() ==> #[trigger] p.headers@[k] == p0.headers@[k])
            && p.headers@.last().name@ == name && p.headers@.last().value@ == value
    }))
    &&& post.next_id == pre.next_id
    &&& (forall|id2: u64| id2 != id ==> post.spec_pending(id2) == pre.spec_pending(id2))
}

/// How `take` steps the table: the pending request leaves under its id on
/// success, and nothing changes when the id is unknown.
pub open spec fn take_step(
    pre: OutboundTable,
    post: OutboundTable,
    id: u64,
    r: Result<PendingRequest, OutboundHttpError>,
) -> bool {
    &&& post.wf()
    &&& (r is Err <==> pre.spec_pending(id) is None)
    &&& (r is Err ==> post == pre && r->Err_0 == OutboundHttpError::UnknownRequestId)
    &&& (r is Ok ==> Some(r->Ok_0) == pre.spec_pending(id) && post.spec_pending(id) is None)
    &&& post.next_id == pre.next_id
    &&& (forall|id2: u64| id2 != id ==> post.spec_pending(id2) == pre.spec_pending(id2))
}

/// Request ids are unique within an instance: two opened requests never
/// share an id, however the table moved in between, because ids held in
/// the table stay below the counter and the counter only grows.
pub proof fn lemma_ids_fresh(
    t0: OutboundTable,
    t1: OutboundTable,
    t2: OutboundTable,
    m1: HttpMethod,
    u1: Seq<char>,
    m2: HttpMethod,
    u2: Seq<char>,
    r1: Result<u64, OutboundHttpError>,
    r2: Result<u64, OutboundHttpError>,
)
    requires
        begin_step(t0, t1, m1, u1, r1),
        begin_step(t1, t2, m2, u2, r2),
        r1 is Ok,
        r2 is Ok,
    ensures
        r1->Ok_0 != r2->Ok_0,
{
}

/// The table of requests a guest is assembling.
#[derive(Debug)]
pub struct OutboundTable {
    /// The next id to assign; ids below it are spent and never reused.
    pub next_id: u64,
    /// The pending requests.
    pub entries: Vec<PendingRequest>,
}

impl OutboundTable {
    /// The table is well formed.
    pub open spec fn wf(self) -> bool {
        table_wf(self.entries@, self.next_id)
    }

    /// The pending request under an id, if any.
    pub open spec fn spec_pending(self, id: u64) -> Option<PendingRequest> {
        if table_has(self.entries@, id) {
            Some(self.entries@[table_idx(self.entries@, id)])
        } else {
            None
        }
    }

    /// An empty table; the first request gets id zero.
    pub fn new() -> (t: OutboundTable)
        ensures
            t.wf(),
            t.next_id == 0,
            forall|id: u64| t.spec_pending(id) is None,
    {
        OutboundTable { next_id: 0, entries: Vec::new() }
    }

    /// Finds the entry index carrying an id.
    fn find(&self, id: u64) -> (r: Option<usize>)
        requires
            self.wf(),
        ensures
            match r {
                Some(i) => 0 <= i < self.entries@.len() && self.entries@[i as int].id == id
                    && table_idx(self.entries@, id) == i && table_has(self.entries@, id),
                None => !table_has(self.entries@, id),
            },
    {
        let mut i: usize = 0;
        while i < self.entries.len()
            invariant
                self.wf(),
                0 <= i <= self.entries@.len(),
                forall|j: int| 0 <= j < i ==> (#[trigger] self.entries@[j]).id != id,
            decreases self.entries@.len() - i,
        {
            if self.entries[i].id == id {
                proof {
                    lemma_table_at(self.entries@, self.next_id, i as int);
                }
                return Some(i);
            }
            i = i + 1;
        }
        None
    }

    /// Opens a new pending request and answers its id: the counter's
    /// value, which then advances, so every id handed out is fresh and
    /// the ids are dense from zero.
    pub fn begin(&mut self, method: HttpMethod, uri: String) -> (r: Result<
        u64,
        OutboundHttpError,
    >)
        requires
            old(self).wf(),
        ensures
            final(self).wf(),
            r is Err <==> old(self).next_id == u64::MAX,
            r is Err ==> *final(self) == *old(self) && r->Err_0
                == OutboundHttpError::RequestIdsExhausted,
            r is Ok ==> ({
                let id = r->Ok_0;
                let fin = *final(self);
                id == old(self).next_id && fin.next_id == old(self).next_id + 1 && (
                fin.spec_pending(id) matches Some(p) && p.id == id && p.method == method && p.uri@
                    == uri@ && p.headers@.len() == 0)
            }),
            r is Ok ==> forall|id2: u64|
                id2 != r->Ok_0 ==> final(self).spec_pending(id2) == old(self).spec_pending(id2),
    {
        if self.next_id == u64::MAX {
            return Err(OutboundHttpError::RequestIdsExhausted);
        }
        let ghost pre = self.entries@;
        let id = self.next_id;
        let entry = PendingRequest { id, method, uri, headers: Vec::new() };
        let ghost eg = entry;
        self.entries.push(entry);
        self.next_id = self.next_id + 1;
        proof {
            let post = pre.push(eg);
            assert(self.entries@ =~= post);
            assert forall|i: int, j: int|
                0 <= i < j < post.len() implies (#[trigger] post[i]).id != (
            #[trigger] post[j]).id by {
                if j == post.len() - 1 {
                    assert(post[i] == pre[i]);
                }
            }
            lemma_table_at(post, self.next_id, pre.len() as int);
            assert forall|id2: u64|
                id2 != id implies self.spec_pending(id2) == old(self).spec_pending(id2) by {
                if table_has(pre, id2) {
                    let j = table_idx(pre, id2);
                    assert(post[j] == pre[j]);
                    lemma_table_at(post, self.next_id, j);
                } else {
                    if table_has(post, id2) {
                        let j = table_idx(post, id2);
                        assert(j < pre.len() ==> pre[j].id == id2);
                        assert(j == pre.len() ==> post[j].id == id);
                    }
                }
            }
        }
        Ok(id)
    }

    /// Adds a header to the pending request under an id.
    pub fn add_header(&mut self, id: u64, name: String, value: Vec<u8>) -> (r: Result<
        (),
        OutboundHttpError,
    >)
        requires
            old(self).wf(),
        ensures
            add_header_step(*old(self), *final(self), id, name@, value@, r),
    {
        let ghost pre = self.entries@;
        match self.find(id) {
            Some(i) => {
                self.entries[i].headers.push(HeaderInterface { name, value });
                proof {
                    let eg = self.entries@[i as int];
                    let post = pre.update(i as int, eg);
                    assert(self.entries@ =~= post);
                    assert(eg.id == pre[i as int].id);
                    assert(table_wf(post, self.next_id));
                    lemma_table_at(post, self.next_id, i as int);
                    assert forall|id2: u64|
                        id2 != id implies self.spec_pending(id2) == old(self).spec_pending(
                        id2,
                    ) by {
                        if table_has(pre, id2) {
                            let j = table_idx(pre, id2);
                            assert(j != i);
                            assert(post[j] == pre[j]);
                            lemma_table_at(post, self.next_id, j);
                        } else {
                            if table_has(post, id2) {
                                let j = table_idx(post, id2);
                                assert(pre[j].id == id2);
                            }
                        }
                    }
                }
                Ok(())
            },
            None => Err(OutboundHttpError::UnknownRequestId),
        }
    }

    /// Closes the pending request under an id and hands it out; the id is
    /// spent and stays spent.
    pub fn take(&mut self, id: u64) -> (r: Result<PendingRequest, OutboundHttpError>)
        requires
            old(self).wf(),
        ensures
            take_step(*old(self), *final(self), id, r),
    {
        let ghost pre = self.entries@;
        match self.find(id) {
            Some(i) => {
                let entry = self.entries.remove(i);
                proof {
                    let post = pre.remove(i as int);
                    assert(self.entries@ =~= post);
                    assert forall|x: int, y: int|
                        0 <= x < y < post.len() implies (#[trigger] post[x]).id != (
                    #[trigger] post[y]).id by {
                        let x0 = if x < i {
                            x
                        } else {
                            x + 1
                        };
                        let y0 = if y < i {
                            y
                        } else {
                            y + 1
                        };
                        assert(post[x] == pre[x0] && post[y] == pre[y0]);
                    }
                    assert forall|x: int| 0 <= x < post.len() implies (#[trigger] post[x]).id
                        < self.next_id by {
                        let x0 = if x < i {
                            x
                        } else {
                            x + 1
                        };
                        assert(post[x] == pre[x0]);
                    }
                    if table_has(post, id) {
                        let j = table_idx(post, id);
                        let j0 = if j < i {
                            j
                        } else {
                            j + 1
                        };
                        assert(post[j] == pre[j0]);
                        lemma_table_at(pre, self.next_id, j0);
                    }
                    assert forall|id2: u64|
                        id2 != id implies self.spec_pending(id2) == old(self).spec_pending(
                        id2,
                    ) by {
                        if table_has(pre, id2) {
                            let j = table_idx(pre, id2);
                            assert(j != i);
                            let jn = if j < i {
                                j
                            } else {
                                j - 1
                            };
                            assert(post[jn] == pre[j]);
                            lemma_table_at(post, self.next_id, jn);
                        } else {
                            if table_has(post, id2) {
                                let j = table_idx(post, id2);
                                let j0 = if j < i {
                                    j
                                } else {
                                    j + 1
                                };
                                assert(post[j] == pre[j0]);
                            }
                        }
                    }
                }
                Ok(entry)
            },
            None => Err(OutboundHttpError::UnknownRequestId),
        }
    }
}

} // verus!
