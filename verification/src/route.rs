//! Routes, the route table, and the matching of a request against them.

use crate::method::HttpMethod;
use crate::params::PathParams;
use crate::pattern::{pattern_of, segment_of, RoutePath, RoutePathSegment, Segment};
use crate::segments::{law_join_of_split, split_path, split_segments, texts};
use vstd::prelude::*;

verus! {

/// A request as a client sends it.
#[derive(Debug)]
pub struct IncomingHttpRequest {
    pub method: HttpMethod,
    pub path: String,
    pub body: String,
}

/// A request as it is handed to a backend: the client's request, and the
/// parameters that the matching route captured from its path.
#[derive(Debug)]
pub struct OutgoingHttpRequest {
    pub method: HttpMethod,
    pub path: String,
    pub path_params: PathParams,
    pub body: String,
}

/// A method and a path pattern, and the address of the backend that answers
/// the requests they accept.
#[derive(Debug)]
pub struct Route {
    pub method: HttpMethod,
    pub path: RoutePath,
    pub process: String,
}

/// The route table. The order of the routes matters: a request goes to the
/// first route that accepts it.
#[derive(Debug)]
pub struct Configuration {
    pub routes: Vec<Route>,
}

/// Whether a pattern segment accepts the text of a path segment: a fixed
/// segment accepts its own text only, a variable accepts any.
pub open spec fn segment_accepts(segment: Segment, text: Seq<char>) -> bool {
    match segment {
        Segment::Fixed(literal) => literal == text,
        Segment::Variable(_) => true,
    }
}

/// Whether a pattern accepts the segments of a path: there are as many as the
/// pattern has, and each is accepted by the pattern segment at its position.
pub open spec fn pattern_accepts(pattern: Seq<Segment>, segments: Seq<Seq<char>>) -> bool {
    &&& pattern.len() == segments.len()
    &&& forall|i: int|
        0 <= i < pattern.len() ==> #[trigger] segment_accepts(pattern[i], segments[i])
}

/// The parameters that a pattern captures from the segments of a path: each
/// variable's name is bound to the segment at the variable's position. Where
/// a name stands at several positions, the last of them counts.
pub open spec fn bindings(pattern: Seq<Segment>, segments: Seq<Seq<char>>) -> Map<
    Seq<char>,
    Seq<char>,
>
    decreases pattern.len(),
{
    if pattern.len() == 0 || segments.len() == 0 {
        Map::empty()
    } else {
        let earlier = bindings(pattern.drop_last(), segments.drop_last());
        match pattern.last() {
            Segment::Variable(name) => earlier.insert(name, segments.last()),
            Segment::Fixed(_) => earlier,
        }
    }
}

/// The position of the first route of `routes` that accepts `request`, or the
/// number of routes where none does.
pub open spec fn first_accepting(routes: Seq<Route>, request: IncomingHttpRequest) -> nat
    decreases routes.len(),
{
    if routes.len() == 0 || routes[0].accepts(request) {
        0
    } else {
        1 + first_accepting(routes.drop_first(), request)
    }
}

impl Route {
    /// Whether the route accepts `request`: the methods are the same, and the
    /// route's pattern accepts the segments of the request's path.
    pub open spec fn accepts(self, request: IncomingHttpRequest) -> bool {
        &&& self.method == request.method
        &&& pattern_accepts(self.path@, split_segments(request.path@))
    }

    /// Whether `outgoing` is what the route forwards for `request`: method,
    /// path and body of the request, and the parameters that the route's
    /// pattern captures from the path.
    pub open spec fn forwards(
        self,
        request: IncomingHttpRequest,
        outgoing: OutgoingHttpRequest,
    ) -> bool {
        &&& outgoing.method == request.method
        &&& outgoing.path@ == request.path@
        &&& outgoing.body@ == request.body@
        &&& outgoing.path_params@ == bindings(self.path@, split_segments(request.path@))
    }

    /// Matches `request` against the route. Where the route accepts it, the
    /// result is the route itself and the request to forward.
    pub fn matching(&self, request: &IncomingHttpRequest) -> (found: Option<
        (&Route, OutgoingHttpRequest),
    >)
        ensures
            found is Some <==> self.accepts(*request),
            found matches Some((route, outgoing)) ==> *route == *self && self.forwards(
                *request,
                outgoing,
            ),
    {
        if self.method != request.method {
            return None;
        }
        let segments: Vec<String> = split_path(request.path.as_str());
        let n: usize = segments.len();
        if n != self.path.0.len() {
            return None;
        }
        let ghost pattern = self.path@;
        let ghost parts = split_segments(request.path@);
        let mut i: usize = 0;
        while i < n
            invariant
                i <= n,
                n == segments.len(),
                n == self.path.0.len(),
                pattern == self.path@,
                parts == texts(segments@),
                parts == split_segments(request.path@),
                forall|k: int| 0 <= k < i ==> #[trigger] segment_accepts(pattern[k], parts[k]),
            decreases n - i,
        {
            match &self.path.0[i] {
                RoutePathSegment::Fixed(literal) => {
                    if !(segments[i] == *literal) {
                        assert(!segment_accepts(pattern[i as int], parts[i as int]));
                        return None;
                    }
                },
                RoutePathSegment::Variable(_) => {},
            }
            i += 1;
        }
        let mut path_params = PathParams::new();
        let mut i: usize = 0;
        while i < n
            invariant
                i <= n,
                n == segments.len(),
                n == self.path.0.len(),
                pattern == self.path@,
                parts == texts(segments@),
                parts == split_segments(request.path@),
                path_params@ == bindings(pattern.take(i as int), parts.take(i as int)),
            decreases n - i,
        {
            proof {
                assert(pattern.take(i + 1).drop_last() =~= pattern.take(i as int));
                assert(parts.take(i + 1).drop_last() =~= parts.take(i as int));
            }
            match &self.path.0[i] {
                RoutePathSegment::Fixed(_) => {},
                RoutePathSegment::Variable(name) => {
                    path_params = path_params.bind(name.clone(), segments[i].clone());
                },
            }
            i += 1;
        }
        proof {
            assert(pattern.take(n as int) =~= pattern);
            assert(parts.take(n as int) =~= parts);
        }
        Some(
            (
                self,
                OutgoingHttpRequest {
                    method: request.method,
                    path: request.path.clone(),
                    path_params,
                    body: request.body.clone(),
                },
            ),
        )
    }
}

impl Configuration {
    /// Finds the first route of the table that accepts `request`. The result
    /// holds the route's position in the table and the request to forward.
    pub fn find(&self, request: &IncomingHttpRequest) -> (found: Option<
        (usize, OutgoingHttpRequest),
    >)
        ensures
            match found {
                Some((at, outgoing)) => {
                    &&& at < self.routes.len()
                    &&& at == first_accepting(self.routes@, *request)
                    &&& self.routes[at as int].accepts(*request)
                    &&& forall|k: int| 0 <= k < at ==> !(#[trigger] self.routes[k]).accepts(*request)
                    &&& self.routes[at as int].forwards(*request, outgoing)
                },
                None => {
                    &&& first_accepting(self.routes@, *request) == self.routes.len()
                    &&& forall|k: int|
                        0 <= k < self.routes.len() ==> !(#[trigger] self.routes[k]).accepts(
                            *request,
                        )
                },
            },
    {
        let n: usize = self.routes.len();
        let mut i: usize = 0;
        while i < n
            invariant
                i <= n,
                n == self.routes.len(),
                forall|k: int| 0 <= k < i ==> !(#[trigger] self.routes[k]).accepts(*request),
            decreases n - i,
        {
            match self.routes[i].matching(request) {
                Some((_, outgoing)) => {
                    proof {
                        lemma_first_accepting(self.routes@, *request, i as int);
                    }
                    return Some((i, outgoing));
                },
                None => {},
            }
            i += 1;
        }
        proof {
            lemma_first_accepting(self.routes@, *request, n as int);
        }
        None
    }
}

/// A position before which no route accepts the request, and which is the end
/// of the table or holds a route that accepts it, is the first accepting
/// position.
pub proof fn lemma_first_accepting(routes: Seq<Route>, request: IncomingHttpRequest, at: int)
    requires
        0 <= at <= routes.len(),
        forall|k: int| 0 <= k < at ==> !(#[trigger] routes[k]).accepts(request),
        at == routes.len() || routes[at].accepts(request),
    ensures
        first_accepting(routes, request) == at,
    decreases at,
{
    if at > 0 {
        let rest = routes.drop_first();
        assert(!routes[0].accepts(request));
        assert forall|k: int| 0 <= k < at - 1 implies !(#[trigger] rest[k]).accepts(request) by {
            assert(rest[k] == routes[k + 1]);
        }
        lemma_first_accepting(rest, request, at - 1);
    }
}

/// The first accepting position lies within the table or at its end; a route
/// stands there only if it accepts the request, and no route before it does.
pub proof fn lemma_first_accepting_bounds(routes: Seq<Route>, request: IncomingHttpRequest)
    ensures
        first_accepting(routes, request) <= routes.len(),
        first_accepting(routes, request) < routes.len() ==> routes[first_accepting(
            routes,
            request,
        ) as int].accepts(request),
        forall|k: int|
            0 <= k < first_accepting(routes, request) ==> !(#[trigger] routes[k]).accepts(request),
    decreases routes.len(),
{
    if routes.len() != 0 && !routes[0].accepts(request) {
        let rest = routes.drop_first();
        lemma_first_accepting_bounds(rest, request);
        assert forall|k: int| 0 <= k < first_accepting(routes, request) implies !(
        #[trigger] routes[k]).accepts(request) by {
            if k > 0 {
                assert(routes[k] == rest[k - 1]);
            }
        }
    }
}

/// Where the methods are the same and the path has as many segments as the
/// pattern, a route accepts a request exactly if every fixed segment of its
/// pattern is the text of the path's segment at the same position. Variables
/// put no condition on the path.
pub proof fn law_accepted_iff_fixed_segments_agree(route: Route, request: IncomingHttpRequest)
    requires
        route.method == request.method,
        route.path@.len() == split_segments(request.path@).len(),
    ensures
        route.accepts(request) <==> (forall|i: int|
            0 <= i < route.path@.len() ==> ((#[trigger] route.path@[i]) matches Segment::Fixed(
                literal,
            ) ==> literal == split_segments(request.path@)[i])),
{
    let pattern = route.path@;
    let parts = split_segments(request.path@);
    if route.accepts(request) {
        assert forall|i: int| 0 <= i < pattern.len() implies ((#[trigger] pattern[i]) matches Segment::Fixed(
            literal,
        ) ==> literal == parts[i]) by {
            assert(segment_accepts(pattern[i], parts[i]));
        }
    }
    if forall|i: int|
        0 <= i < pattern.len() ==> ((#[trigger] pattern[i]) matches Segment::Fixed(literal)
            ==> literal == parts[i]) {
        assert forall|i: int| 0 <= i < pattern.len() implies #[trigger] segment_accepts(
            pattern[i],
            parts[i],
        ) by {
            let segment = pattern[i];
        }
    }
}

/// A variable binds its name to the segment at its own position, unless the
/// same name stands again later in the pattern.
pub proof fn law_variable_binds_its_segment(
    pattern: Seq<Segment>,
    segments: Seq<Seq<char>>,
    at: int,
    name: Seq<char>,
)
    requires
        pattern.len() == segments.len(),
        0 <= at < pattern.len(),
        pattern[at] == Segment::Variable(name),
        forall|j: int| at < j < pattern.len() ==> pattern[j] != Segment::Variable(name),
    ensures
        bindings(pattern, segments).contains_key(name),
        bindings(pattern, segments)[name] == segments[at],
    decreases pattern.len(),
{
    if at < pattern.len() - 1 {
        law_variable_binds_its_segment(pattern.drop_last(), segments.drop_last(), at, name);
    }
}

/// Only the names of a pattern's variables are bound.
pub proof fn law_bound_names_are_variables(
    pattern: Seq<Segment>,
    segments: Seq<Seq<char>>,
    name: Seq<char>,
)
    requires
        pattern.len() == segments.len(),
        bindings(pattern, segments).contains_key(name),
    ensures
        exists|i: int| 0 <= i < pattern.len() && pattern[i] == Segment::Variable(name),
    decreases pattern.len(),
{
    if pattern.len() > 0 {
        if pattern.last() == Segment::Variable(name) {
            assert(pattern[pattern.len() - 1] == Segment::Variable(name));
        } else {
            law_bound_names_are_variables(pattern.drop_last(), segments.drop_last(), name);
            let i = choose|i: int|
                0 <= i < pattern.drop_last().len() && pattern.drop_last()[i] == Segment::Variable(
                    name,
                );
            assert(pattern[i] == Segment::Variable(name));
        }
    }
}

/// Of two routes that accept the same request, the one that stands earlier in
/// the table is preferred, whatever their patterns are: the request never
/// goes to the later one.
pub proof fn law_earlier_route_wins(
    routes: Seq<Route>,
    request: IncomingHttpRequest,
    earlier: int,
    later: int,
)
    requires
        0 <= earlier < later < routes.len(),
        routes[earlier].accepts(request),
        routes[later].accepts(request),
    ensures
        first_accepting(routes, request) <= earlier,
        first_accepting(routes, request) != later,
{
    lemma_first_accepting_bounds(routes, request);
}

/// A pattern without variables accepts the path that it was read from, and
/// no other path.
pub proof fn law_fixed_pattern_accepts_its_own_path(specified: Seq<char>, path: Seq<char>)
    requires
        forall|i: int|
            0 <= i < pattern_of(specified).len() ==> (#[trigger] pattern_of(specified)[i]) is Fixed,
    ensures
        pattern_accepts(pattern_of(specified), split_segments(path)) <==> path == specified,
{
    let pattern = pattern_of(specified);
    let own = split_segments(specified);
    let parts = split_segments(path);
    assert forall|i: int| 0 <= i < pattern.len() implies #[trigger] pattern[i] == Segment::Fixed(
        own[i],
    ) by {
        assert(pattern[i] is Fixed);
        assert(pattern[i] == segment_of(own[i]));
    }
    if pattern_accepts(pattern, parts) {
        assert forall|i: int| 0 <= i < parts.len() implies parts[i] == own[i] by {
            assert(segment_accepts(pattern[i], parts[i]));
        }
        assert(parts =~= own);
        law_join_of_split(path);
        law_join_of_split(specified);
    }
    if path == specified {
        assert forall|i: int| 0 <= i < pattern.len() implies #[trigger] segment_accepts(
            pattern[i],
            parts[i],
        ) by {
            assert(pattern[i] == Segment::Fixed(own[i]));
        }
    }
}

} // verus!
