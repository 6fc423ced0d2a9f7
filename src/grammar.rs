//! Command grammars and the route matcher.
use vstd::prelude::*;
use crate::text::{all_digits, digits_value, parse_u64};

verus! {

/// How a placeholder's token is read.
#[derive(Clone, Copy, PartialEq, Eq, Structural, Debug)]
pub enum ArgKind {
    /// One token, taken as it is.
    SingleWord,
    /// Free text: one token, or every remaining token where it ends a chain.
    FreeText,
    /// One token that must be a decimal number fitting in 64 bits.
    Number,
    /// One token naming a channel.
    ChannelRef,
    /// One token naming a role.
    RoleRef,
    /// One token naming a member.
    MemberRef,
}

/// One position of a grammar alternative: a literal keyword (`kind` is
/// `None`) or a typed placeholder.
#[derive(Debug)]
pub struct GrammarNode {
    pub label: String,
    pub help: Option<String>,
    pub kind: Option<ArgKind>,
}

/// The alternative that matched: its index among the grammar's alternatives
/// and the nodes it consists of.
#[derive(Debug)]
pub struct MatchedRoute {
    pub alternative: usize,
    pub nodes: Vec<GrammarNode>,
}

/// A token that a placeholder of kind `Number` could not read, by its
/// position among the tokens.
#[derive(Clone, Copy, PartialEq, Eq, Structural, Debug)]
pub struct ParseError {
    pub position: usize,
}

/// What matching tokens against a grammar gives, as plain values.
pub enum RouteOutcome {
    Route(int),
    NoRoute,
    Malformed(int),
}

/// The node has this label, help text and kind.
pub open spec fn node_is(n: GrammarNode, label: Seq<char>, help: Option<Seq<char>>, kind: Option<ArgKind>) -> bool {
    &&& n.label@ == label
    &&& n.kind == kind
    &&& match help {
        Some(h) => n.help matches Some(nh) && nh@ == h,
        None => n.help is None,
    }
}

/// The chains of a grammar, each as a sequence of nodes.
pub open spec fn chains(alts: Seq<Vec<GrammarNode>>) -> Seq<Seq<GrammarNode>> {
    alts.map_values(|c: Vec<GrammarNode>| c@)
}

/// A literal node accepts only its own label; a placeholder accepts any token.
pub open spec fn node_accepts(node: GrammarNode, tok: Seq<char>) -> bool {
    node.kind is None ==> tok == node.label@
}

pub open spec fn ends_in_free_text(chain: Seq<GrammarNode>) -> bool {
    chain.len() > 0 && chain.last().kind == Some(ArgKind::FreeText)
}

/// The chain consumes exactly the tokens: one each, but for a trailing free
/// text node, which takes all that remain; each node accepts its token.
pub open spec fn chain_fits(chain: Seq<GrammarNode>, toks: Seq<Seq<char>>) -> bool {
    &&& (toks.len() == chain.len() || (ends_in_free_text(chain) && toks.len() > chain.len()))
    &&& forall|i: int| 0 <= i < chain.len() ==> node_accepts(#[trigger] chain[i], toks[i])
}

/// The first alternative, from index `a` on, that fits the tokens.
pub open spec fn first_fit(alts: Seq<Seq<GrammarNode>>, toks: Seq<Seq<char>>, a: int) -> Option<int>
    decreases alts.len() - a,
{
    if a < 0 || a >= alts.len() {
        None
    } else if chain_fits(alts[a], toks) {
        Some(a)
    } else {
        first_fit(alts, toks, a + 1)
    }
}

pub open spec fn reads_as_u64(tok: Seq<char>) -> bool {
    all_digits(tok) && digits_value(tok) <= u64::MAX
}

/// The first position, from `i` on, where a `Number` node meets a token that
/// is not a 64-bit decimal number.
pub open spec fn first_bad_number(chain: Seq<GrammarNode>, toks: Seq<Seq<char>>, i: int) -> Option<int>
    decreases chain.len() - i,
{
    if i < 0 || i >= chain.len() {
        None
    } else if chain[i].kind == Some(ArgKind::Number) && !reads_as_u64(toks[i]) {
        Some(i)
    } else {
        first_bad_number(chain, toks, i + 1)
    }
}

/// Alternatives are tried in order and the first that fits wins; its
/// `Number` tokens must then read as numbers.
pub open spec fn match_outcome(alts: Seq<Seq<GrammarNode>>, toks: Seq<Seq<char>>) -> RouteOutcome {
    match first_fit(alts, toks, 0) {
        None => RouteOutcome::NoRoute,
        Some(a) => match first_bad_number(alts[a], toks, 0) {
            None => RouteOutcome::Route(a),
            Some(p) => RouteOutcome::Malformed(p),
        },
    }
}

/// The outcome that a result of `match_route` stands for.
pub open spec fn outcome_of(r: Result<Option<MatchedRoute>, ParseError>) -> RouteOutcome {
    match r {
        Ok(Some(route)) => RouteOutcome::Route(route.alternative as int),
        Ok(None) => RouteOutcome::NoRoute,
        Err(e) => RouteOutcome::Malformed(e.position as int),
    }
}

impl GrammarNode {
    /// A literal keyword.
    pub fn literal(label: &str, help: Option<&str>) -> (r: GrammarNode)
        ensures
            r.label@ == label@,
            r.kind is None,
            match help {
                Some(h) => r.help matches Some(rh) && rh@ == h@,
                None => r.help is None,
            },
    {
        GrammarNode { label: label.to_owned(), help: owned_help(help), kind: None }
    }

    /// A placeholder of the given kind.
    pub fn placeholder(label: &str, help: Option<&str>, kind: ArgKind) -> (r: GrammarNode)
        ensures
            r.label@ == label@,
            r.kind == Some(kind),
            match help {
                Some(h) => r.help matches Some(rh) && rh@ == h@,
                None => r.help is None,
            },
    {
        GrammarNode { label: label.to_owned(), help: owned_help(help), kind: Some(kind) }
    }

    /// A copy of this node.
    pub fn duplicate(&self) -> (r: GrammarNode)
        ensures
            r == *self,
    {
        let help = match &self.help {
            Some(h) => Some(h.clone()),
            None => None,
        };
        GrammarNode { label: self.label.clone(), help, kind: self.kind }
    }
}

fn owned_help(help: Option<&str>) -> (r: Option<String>)
    ensures
        match help {
            Some(h) => r matches Some(rh) && rh@ == h@,
            None => r is None,
        },
{
    match help {
        Some(h) => Some(h.to_owned()),
        None => None,
    }
}

fn copy_chain(chain: &Vec<GrammarNode>) -> (r: Vec<GrammarNode>)
    ensures
        r@ == chain@,
{
    let mut out: Vec<GrammarNode> = Vec::new();
    let mut i: usize = 0;
    while i < chain.len()
        invariant
            i <= chain@.len(),
            out@ == chain@.take(i as int),
        decreases chain@.len() - i,
    {
        out.push(chain[i].duplicate());
        assert(out@ =~= chain@.take(i + 1));
        i = i + 1;
    }
    assert(chain@.take(i as int) =~= chain@);
    out
}

/// Whether `chain` fits `toks` (see `chain_fits`).
pub fn fits(chain: &Vec<GrammarNode>, toks: &Vec<String>) -> (r: bool)
    ensures
        r == chain_fits(chain@, toks.deep_view()),
{
    let n = chain.len();
    let m = toks.len();
    let free_tail = n > 0 && match chain[n - 1].kind {
        Some(ArgKind::FreeText) => true,
        _ => false,
    };
    if !(m == n || (free_tail && m > n)) {
        return false;
    }
    let mut i: usize = 0;
    while i < n
        invariant
            i <= n,
            n == chain@.len(),
            m == toks@.len(),
            n <= m,
            forall|j: int| 0 <= j < i ==> node_accepts(#[trigger] chain@[j], toks.deep_view()[j]),
        decreases n - i,
    {
        if chain[i].kind.is_none() && toks[i] != chain[i].label {
            return false;
        }
        i = i + 1;
    }
    true
}

/// Matches `toks` against the alternatives of a grammar: the first that fits
/// gives the route, unless one of its `Number` tokens does not read as a
/// number; `Ok(None)` where none fits (the caller shows usage help).
pub fn match_route(alts: &Vec<Vec<GrammarNode>>, toks: &Vec<String>) -> (r: Result<
    Option<MatchedRoute>,
    ParseError,
>)
    ensures
        outcome_of(r) == match_outcome(chains(alts@), toks.deep_view()),
        r matches Ok(Some(route)) ==> route.alternative < alts@.len() && route.nodes@
            == alts@[route.alternative as int]@,
        r matches Err(e) ==> e.position < toks@.len(),
{
    let ghost g = chains(alts@);
    let ghost t = toks.deep_view();
    let mut a: usize = 0;
    while a < alts.len()
        invariant
            a <= alts@.len(),
            g == chains(alts@),
            g.len() == alts@.len(),
            t == toks.deep_view(),
            first_fit(g, t, 0) == first_fit(g, t, a as int),
        decreases alts@.len() - a,
    {
        if fits(&alts[a], toks) {
            let chain = &alts[a];
            let mut i: usize = 0;
            while i < chain.len()
                invariant
                    a < alts@.len(),
                    g == chains(alts@),
                    g.len() == alts@.len(),
                    first_fit(g, t, 0) == Some(a as int),
                    i <= chain@.len(),
                    chain@ == g[a as int],
                    chain_fits(chain@, t),
                    t == toks.deep_view(),
                    first_bad_number(g[a as int], t, 0) == first_bad_number(g[a as int], t, i as int),
                decreases chain@.len() - i,
            {
                assert(t[i as int] == toks@[i as int]@);
                if let Some(ArgKind::Number) = chain[i].kind {
                    if parse_u64(toks[i].as_str()).is_none() {
                        assert(!reads_as_u64(t[i as int]));
                        assert(first_bad_number(g[a as int], t, i as int) == Some(i as int));
                        return Err(ParseError { position: i });
                    }
                }
                i = i + 1;
            }
            return Ok(Some(MatchedRoute { alternative: a, nodes: copy_chain(chain) }));
        }
        a = a + 1;
    }
    Ok(None)
}

proof fn lemma_first_fit(alts: Seq<Seq<GrammarNode>>, toks: Seq<Seq<char>>, k: int)
    requires
        0 <= k,
    ensures
        match first_fit(alts, toks, k) {
            Some(a) => k <= a < alts.len() && chain_fits(alts[a], toks) && forall|b: int|
                k <= b < a ==> !chain_fits(#[trigger] alts[b], toks),
            None => forall|b: int| k <= b < alts.len() ==> !chain_fits(#[trigger] alts[b], toks),
        },
    decreases alts.len() - k,
{
    if k < alts.len() && !chain_fits(alts[k], toks) {
        lemma_first_fit(alts, toks, k + 1);
    }
}

/// Matching is deterministic: any two results of `match_route` on the same
/// grammar and tokens stand for the same outcome, and where a route is found
/// it is the same alternative with the same nodes.
pub proof fn lemma_match_deterministic(
    alts: Seq<Vec<GrammarNode>>,
    toks: Seq<Seq<char>>,
    r1: Result<Option<MatchedRoute>, ParseError>,
    r2: Result<Option<MatchedRoute>, ParseError>,
)
    requires
        outcome_of(r1) == match_outcome(chains(alts), toks),
        r1 matches Ok(Some(route)) ==> route.alternative < alts.len() && route.nodes@
            == alts[route.alternative as int]@,
        outcome_of(r2) == match_outcome(chains(alts), toks),
        r2 matches Ok(Some(route)) ==> route.alternative < alts.len() && route.nodes@
            == alts[route.alternative as int]@,
    ensures
        outcome_of(r1) == outcome_of(r2),
        r1 is Ok <==> r2 is Ok,
        r1 matches Ok(Some(x)) ==> (r2 matches Ok(Some(y)) && x.alternative == y.alternative
            && x.nodes@ == y.nodes@),
        r1 matches Err(e1) ==> (r2 matches Err(e2) && e1 == e2),
{
}

/// A route takes up exactly the tokens: the first alternative that fits wins,
/// and it has as many nodes as there are tokens, or fewer only where it ends
/// in free text.
pub proof fn lemma_route_shape(alts: Seq<Seq<GrammarNode>>, toks: Seq<Seq<char>>)
    ensures
        match_outcome(alts, toks) matches RouteOutcome::Route(a) ==> {
            &&& 0 <= a < alts.len()
            &&& (alts[a].len() == toks.len() || (ends_in_free_text(alts[a]) && alts[a].len()
                < toks.len()))
            &&& forall|b: int| 0 <= b < a ==> !chain_fits(#[trigger] alts[b], toks)
        },
{
    lemma_first_fit(alts, toks, 0);
}

/// On two tokens, where alternatives of three nodes (not ending in free text)
/// come before one of two placeholders that read any token, the two-node
/// alternative is chosen: the longer ones are never taken.
pub proof fn lemma_two_tokens_pick_two_nodes(alts: Seq<Seq<GrammarNode>>, toks: Seq<Seq<char>>, i: int)
    requires
        toks.len() == 2,
        0 <= i < alts.len(),
        alts[i].len() == 2,
        forall|j: int| 0 <= j < 2 ==> (#[trigger] alts[i][j]).kind is Some && alts[i][j].kind
            != Some(ArgKind::Number),
        forall|b: int| 0 <= b < i ==> (#[trigger] alts[b]).len() == 3 && !ends_in_free_text(alts[b]),
    ensures
        match_outcome(alts, toks) == RouteOutcome::Route(i),
{
    lemma_first_fit(alts, toks, 0);
    assert(chain_fits(alts[i], toks));
    assert(first_bad_number(alts[i], toks, 2) is None);
    assert(first_bad_number(alts[i], toks, 1) is None);
}

} // verus!
