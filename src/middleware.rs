use vstd::prelude::*;

verus! {

/// Name of the courtesy header that every response carries.
pub const X_CLACKS_OVERHEAD: &'static str = "X-Clacks-Overhead";

/// Value of the courtesy header.
pub const X_CLACKS_OVERHEAD_VALUE: &'static str = "GNU aaronsw, jpb";

/// One HTTP header line.
pub struct Header {
    pub name: String,
    pub value: String,
}

/// What a post-processing step may read of the request that was served.
pub struct Request {
    pub method: String,
    pub path: String,
    pub headers: Vec<Header>,
}

/// An outgoing response.
pub struct Response {
    pub status: u16,
    pub headers: Vec<Header>,
    pub body: Vec<u8>,
}

/// A header as a name and a value.
pub open spec fn header_view(h: Header) -> (Seq<char>, Seq<char>) {
    (h.name@, h.value@)
}

/// Headers as names and values, in order.
pub open spec fn headers_view(hs: Seq<Header>) -> Seq<(Seq<char>, Seq<char>)> {
    hs.map_values(|h: Header| header_view(h))
}

/// An ASCII capital letter.
pub open spec fn is_upper(c: char) -> bool {
    65 <= c as u32 <= 90
}

/// Two characters that are equal once ASCII letters are folded to one case.
pub open spec fn same_letter(a: char, b: char) -> bool {
    a == b || (is_upper(a) && b as u32 == a as u32 + 32) || (is_upper(b) && a as u32 == b as u32
        + 32)
}

/// Header names are compared without regard to ASCII case.
pub open spec fn same_name(a: Seq<char>, b: Seq<char>) -> bool {
    a.len() == b.len() && forall|i: int| 0 <= i < a.len() ==> same_letter(#[trigger] a[i], b[i])
}

/// The headers whose names differ from `name`, in order.
pub open spec fn without_name(hs: Seq<(Seq<char>, Seq<char>)>, name: Seq<char>) -> Seq<
    (Seq<char>, Seq<char>),
>
    decreases hs.len(),
{
    if hs.len() == 0 {
        hs
    } else {
        let rest = without_name(hs.drop_first(), name);
        if same_name(hs[0].0, name) {
            rest
        } else {
            seq![hs[0]] + rest
        }
    }
}

/// The headers after setting `name` to `value`: earlier lines of that name
/// go, and the new line comes last.
pub open spec fn with_header(hs: Seq<(Seq<char>, Seq<char>)>, name: Seq<char>, value: Seq<char>) -> Seq<
    (Seq<char>, Seq<char>),
> {
    without_name(hs, name).push((name, value))
}

/// Some header line has this name and this value.
pub open spec fn has_header(hs: Seq<(Seq<char>, Seq<char>)>, name: Seq<char>, value: Seq<char>) -> bool {
    exists|i: int| 0 <= i < hs.len() && same_name(#[trigger] hs[i].0, name) && hs[i].1 == value
}

fn letters_match(x: char, y: char) -> (r: bool)
    ensures
        r == same_letter(x, y),
{
    let a = x as u32;
    let b = y as u32;
    a == b || (65 <= a && a <= 90 && b == a + 32) || (65 <= b && b <= 90 && a == b + 32)
}

/// Whether two header names are the same, ignoring ASCII case.
pub fn name_eq(a: &str, b: &str) -> (r: bool)
    ensures
        r == same_name(a@, b@),
{
    let n = a.unicode_len();
    let m = b.unicode_len();
    if n != m {
        return false;
    }
    let mut i: usize = 0;
    while i < n
        invariant
            n == a@.len(),
            m == b@.len(),
            n == m,
            0 <= i <= n,
            forall|j: int| 0 <= j < i ==> same_letter(#[trigger] a@[j], b@[j]),
        decreases n - i,
    {
        let x = a.get_char(i);
        let y = b.get_char(i);
        if !letters_match(x, y) {
            return false;
        }
        i = i + 1;
    }
    true
}

/// Sets header `name` to `value`: lines of that name already present are
/// removed, the others keep their order, and the new line comes last.
pub fn set_header(headers: Vec<Header>, name: String, value: String) -> (r: Vec<Header>)
    ensures
        headers_view(r@) == with_header(headers_view(headers@), name@, value@),
{
    let mut rest = headers;
    let mut out: Vec<Header> = Vec::new();
    while rest.len() > 0
        invariant
            headers_view(out@) + without_name(headers_view(rest@), name@) == without_name(
                headers_view(headers@),
                name@,
            ),
        decreases rest@.len(),
    {
        let ghost before = headers_view(rest@);
        let ghost out_before = headers_view(out@);
        let h = rest.remove(0);
        assert(headers_view(rest@) =~= before.drop_first());
        assert(before[0] == header_view(h));
        if !name_eq(h.name.as_str(), name.as_str()) {
            out.push(h);
            assert(headers_view(out@) =~= out_before.push(header_view(h)));
            assert(out_before + (seq![before[0]] + without_name(headers_view(rest@), name@))
                =~= out_before.push(header_view(h)) + without_name(headers_view(rest@), name@));
        }
    }
    assert(headers_view(rest@) =~= Seq::<(Seq<char>, Seq<char>)>::empty());
    assert(headers_view(out@) =~= without_name(headers_view(headers@), name@));
    let ghost out_before = headers_view(out@);
    out.push(Header { name, value });
    assert(headers_view(out@) =~= out_before.push((name@, value@)));
    out
}

/// The post-processing step that marks every response with the courtesy header.
pub struct XClacksOverheadMiddleware;

impl XClacksOverheadMiddleware {
    /// Adds the courtesy header to the response, whatever the request, the
    /// status or the body. Status and body are kept.
    pub fn after(&self, req: &Request, res: Response) -> (r: Response)
        ensures
            r.status == res.status,
            r.body == res.body,
            headers_view(r.headers@) == with_header(
                headers_view(res.headers@),
                X_CLACKS_OVERHEAD@,
                X_CLACKS_OVERHEAD_VALUE@,
            ),
    {
        let Response { status, headers, body } = res;
        let name = String::from_str(X_CLACKS_OVERHEAD);
        let value = String::from_str(X_CLACKS_OVERHEAD_VALUE);
        Response { status, headers: set_header(headers, name, value), body }
    }
}

/// The post-processing steps a server may register.
#[derive(Clone, Copy, Debug, PartialEq, Eq, Structural)]
pub enum Middleware {
    XClacksOverhead,
}

/// What one step makes of the response headers.
pub open spec fn step_headers(m: Middleware, hs: Seq<(Seq<char>, Seq<char>)>) -> Seq<
    (Seq<char>, Seq<char>),
> {
    match m {
        Middleware::XClacksOverhead => with_header(
            hs,
            X_CLACKS_OVERHEAD@,
            X_CLACKS_OVERHEAD_VALUE@,
        ),
    }
}

/// What the steps, applied in order, make of the response headers.
pub open spec fn chain_headers(steps: Seq<Middleware>, hs: Seq<(Seq<char>, Seq<char>)>) -> Seq<
    (Seq<char>, Seq<char>),
>
    decreases steps.len(),
{
    if steps.len() == 0 {
        hs
    } else {
        step_headers(steps.last(), chain_headers(steps.drop_last(), hs))
    }
}

/// Post-processing steps, applied to each response in the order they were registered.
pub struct Chain {
    steps: Vec<Middleware>,
}

impl Chain {
    /// The registered steps, in order.
    pub closed spec fn steps(&self) -> Seq<Middleware> {
        self.steps@
    }

    /// A chain with no steps.
    pub fn new() -> (r: Chain)
        ensures
            r.steps() == Seq::<Middleware>::empty(),
    {
        Chain { steps: Vec::new() }
    }

    /// Adds a step after those already registered.
    pub fn register(&mut self, step: Middleware)
        ensures
            final(self).steps() == old(self).steps().push(step),
    {
        self.steps.push(step);
    }

    /// Runs every step on the response, in registration order.
    pub fn apply_all(&self, req: &Request, res: Response) -> (r: Response)
        ensures
            r.status == res.status,
            r.body == res.body,
            headers_view(r.headers@) == chain_headers(self.steps(), headers_view(res.headers@)),
    {
        let ghost start = headers_view(res.headers@);
        let mut cur = res;
        let n = self.steps.len();
        let mut i: usize = 0;
        while i < n
            invariant
                n == self.steps@.len(),
                0 <= i <= n,
                cur.status == res.status,
                cur.body == res.body,
                headers_view(cur.headers@) == chain_headers(self.steps@.subrange(0, i as int), start),
            decreases n - i,
        {
            let ghost done = self.steps@.subrange(0, i as int);
            match self.steps[i] {
                Middleware::XClacksOverhead => {
                    cur = XClacksOverheadMiddleware.after(req, cur);
                },
            }
            assert(self.steps@.subrange(0, i + 1 as int).drop_last() =~= done);
            i = i + 1;
        }
        assert(self.steps@.subrange(0, n as int) =~= self.steps@);
        cur
    }
}

/// Whatever the request, the status, the body and the headers a response
/// already has, a chain that holds the courtesy step hands back a response
/// carrying the courtesy header with its fixed value.
pub proof fn lemma_marker_always_present(steps: Seq<Middleware>, hs: Seq<(Seq<char>, Seq<char>)>)
    requires
        steps.contains(Middleware::XClacksOverhead),
    ensures
        has_header(chain_headers(steps, hs), X_CLACKS_OVERHEAD@, X_CLACKS_OVERHEAD_VALUE@),
{
    let out = chain_headers(steps, hs);
    let last = out.len() - 1;
    assert(out[last] == (X_CLACKS_OVERHEAD@, X_CLACKS_OVERHEAD_VALUE@));
    assert(same_name(out[last].0, X_CLACKS_OVERHEAD@));
}

} // verus!
