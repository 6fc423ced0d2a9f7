//! From an utterance to an outcome: tokenizing and matching, and resuming a
//! command once its requester has picked a candidate.
use vstd::prelude::*;
use crate::grammar::{chains, match_outcome, match_route, GrammarNode, MatchedRoute, RouteOutcome};
use crate::pending::{answered, Answer, PendingTable};
use crate::registry::CommandError;
use crate::text::{tokenize, tokens_of};

verus! {

/// What handling an utterance leads to.
#[derive(Debug)]
pub enum Outcome {
    /// A route matched; `args` are the tokens it was matched on.
    RouteReady { route: MatchedRoute, args: Vec<String> },
    /// No alternative matched: show the command's usage help.
    UsageRequested,
    Failed(CommandError),
}

/// `o` is what matching `toks`, a command word and its arguments, against the
/// command's grammar `g` gives; the arguments alone are matched.
pub open spec fn routed(g: Seq<Vec<GrammarNode>>, toks: Seq<Seq<char>>, o: Outcome) -> bool {
    if toks.len() == 0 {
        o is UsageRequested
    } else {
        match match_outcome(chains(g), toks.skip(1)) {
            RouteOutcome::Route(a) => o matches Outcome::RouteReady { route, args } && route.alternative
                == a && route.nodes@ == g[a]@ && args.deep_view() == toks,
            RouteOutcome::NoRoute => o is UsageRequested,
            RouteOutcome::Malformed(p) => o matches Outcome::Failed(CommandError::Parse(q)) && q == p
                + 1,
        }
    }
}

fn arguments_of(toks: &Vec<String>) -> (r: Vec<String>)
    requires
        toks@.len() > 0,
    ensures
        r.deep_view() == toks.deep_view().skip(1),
{
    let mut out: Vec<String> = Vec::new();
    let mut i: usize = 1;
    while i < toks.len()
        invariant
            1 <= i <= toks@.len(),
            out@.len() == i - 1,
            forall|j: int| 0 <= j < i - 1 ==> #[trigger] out@[j]@ == toks@[j + 1]@,
        decreases toks@.len() - i,
    {
        out.push(toks[i].clone());
        i = i + 1;
    }
    assert(out.deep_view() =~= toks.deep_view().skip(1));
    out
}

/// Matches a command's tokens (its word, then its arguments) against its
/// grammar. In `RouteReady`, `args` are all the tokens, so positions of
/// arguments count from 1.
pub fn route_command(grammar: &Vec<Vec<GrammarNode>>, toks: Vec<String>) -> (r: Outcome)
    ensures
        routed(grammar@, toks.deep_view(), r),
{
    if toks.len() == 0 {
        return Outcome::UsageRequested;
    }
    let rest = arguments_of(&toks);
    match match_route(grammar, &rest) {
        Ok(Some(route)) => Outcome::RouteReady { route, args: toks },
        Ok(None) => Outcome::UsageRequested,
        Err(e) => Outcome::Failed(CommandError::Parse(e.position + 1)),
    }
}

/// Tokenizes `raw` (the utterance after the prefix) and routes it.
pub fn route_utterance(grammar: &Vec<Vec<GrammarNode>>, raw: &str, preserve_quoted: bool) -> (r:
    Outcome)
    ensures
        routed(grammar@, tokens_of(raw@, preserve_quoted), r),
{
    route_command(grammar, tokenize(raw, preserve_quoted))
}

/// How the answer to a pending lookup turns into the result of `resume`.
pub open spec fn resumed(a: Answer, r: Option<Result<Vec<String>, CommandError>>) -> bool {
    match a {
        Answer::NotASelection => r is None,
        Answer::NothingPending => r is None,
        Answer::OutOfRange => r matches Some(Err(e)) && e == CommandError::SelectionOutOfRange,
        Answer::Resumed { args, id } => r matches Some(Ok(v)) && v.deep_view() == args.deep_view(),
    }
}

/// Handles `reply` from `who` as the answer to their pending lookup: a pick
/// gives back the tokens of the suspended command with the chosen identifier
/// put in, to be routed again; `None` where the reply is to be handled as an
/// utterance of its own.
pub fn resume(table: &mut PendingTable, who: u64, reply: &str, now: i64) -> (r: Option<
    Result<Vec<String>, CommandError>,
>)
    requires
        old(table).wf(),
    ensures
        final(table).wf(),
        exists|a: Answer| answered(old(table)@, who, reply@, now, final(table)@, a) && resumed(a, r),
{
    let a = table.answer(who, reply, now);
    let ghost ga = a;
    let r = match a {
        Answer::NotASelection => None,
        Answer::NothingPending => None,
        Answer::OutOfRange => Some(Err(CommandError::SelectionOutOfRange)),
        Answer::Resumed { args, id } => Some(Ok(args)),
    };
    assert(resumed(ga, r));
    r
}

} // verus!
