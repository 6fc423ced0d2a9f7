//! The table of lookups that wait for the user to pick a candidate.
use vstd::prelude::*;
use std::collections::HashMap;
use crate::text::{all_digits, decimal, digits_value, id_text, parse_u64};
use crate::resolve::{
    classified, classify, exact_match, fuzzy_hits, fuzzy_matches, lemma_exact_id_wins, resolution, Candidate,
    FindError, FindType, Lookup, Resolved,
};

verus! {

broadcast use vstd::std_specs::hash::group_hash_axioms;

/// How long, in milliseconds, an unanswered lookup stays open.
pub const EXPIRY_MS: i64 = 300000;

/// A lookup that waits for its requester to pick one of `finds` by number.
#[derive(Debug)]
pub struct FindsAwaitingAnswer {
    /// The requester.
    pub who: u64,
    /// The channel the lookup was made in.
    pub channel: u64,
    /// When the lookup was made, in milliseconds since the Unix epoch.
    pub when: i64,
    /// The candidates, in the order in which they were listed.
    pub finds: Vec<Candidate>,
    /// The arguments of the command that made the lookup.
    pub args: Vec<String>,
    /// The position in `args` that the chosen identifier replaces.
    pub replace_index: usize,
}

/// The entry is older than the expiry window at time `now`.
pub open spec fn expired(e: FindsAwaitingAnswer, now: i64) -> bool {
    now - e.when > EXPIRY_MS
}

/// Pending lookups, at most one per requester.
pub struct PendingTable {
    entries: HashMap<u64, FindsAwaitingAnswer>,
}

impl View for PendingTable {
    type V = Map<u64, FindsAwaitingAnswer>;

    closed spec fn view(&self) -> Map<u64, FindsAwaitingAnswer> {
        self.entries@
    }
}

/// What a reply to a pending lookup leads to.
#[derive(Debug)]
pub enum Answer {
    /// The reply is not a number: it is an utterance of its own.
    NotASelection,
    /// The requester has no lookup open.
    NothingPending,
    /// The number picks no candidate; the lookup stays open.
    OutOfRange,
    /// The pick: the command's arguments with the chosen identifier put in.
    Resumed { args: Vec<String>, id: u64 },
}

/// The entry is well formed under key `who`.
pub open spec fn entry_wf(who: u64, e: FindsAwaitingAnswer) -> bool {
    e.who == who && e.replace_index < e.args@.len()
}

/// The requester's entry, unless there is none or it has expired.
pub open spec fn live_entry(m: Map<u64, FindsAwaitingAnswer>, who: u64, now: i64) -> Option<
    FindsAwaitingAnswer,
> {
    if m.contains_key(who) && !expired(m[who], now) {
        Some(m[who])
    } else {
        None
    }
}

/// The arguments with the identifier chosen by `n` put in place.
pub open spec fn resumed_args(e: FindsAwaitingAnswer, n: int) -> Seq<Seq<char>> {
    e.args.deep_view().update(e.replace_index as int, decimal(e.finds@[n - 1].id as nat))
}

/// What answering `reply` does, for a table `m` before and `m2` after.
pub open spec fn answered(
    m: Map<u64, FindsAwaitingAnswer>,
    who: u64,
    reply: Seq<char>,
    now: i64,
    m2: Map<u64, FindsAwaitingAnswer>,
    r: Answer,
) -> bool {
    if !all_digits(reply) {
        r is NotASelection && m2 == m
    } else {
        match live_entry(m, who, now) {
            None => r is NothingPending && m2 == m.remove(who),
            Some(e) => {
                let n = digits_value(reply);
                if 1 <= n <= e.finds@.len() {
                    m2 == m.remove(who) && match r {
                        Answer::Resumed { args, id } => id == e.finds@[n - 1].id && args.deep_view()
                            == resumed_args(e, n as int),
                        _ => false,
                    }
                } else {
                    r is OutOfRange && m2 == m
                }
            },
        }
    }
}

impl PendingTable {
    /// Every entry sits under its requester and names a position of its arguments.
    pub open spec fn wf(&self) -> bool {
        &&& self@.dom().finite()
        &&& forall|who: u64| #[trigger] self@.contains_key(who) ==> entry_wf(who, self@[who])
    }

    pub fn new() -> (r: PendingTable)
        ensures
            r@ == Map::<u64, FindsAwaitingAnswer>::empty(),
            r.wf(),
    {
        PendingTable { entries: HashMap::new() }
    }

    /// Opens a lookup, replacing the requester's earlier one if any.
    pub fn register(&mut self, entry: FindsAwaitingAnswer)
        requires
            old(self).wf(),
            entry.replace_index < entry.args@.len(),
        ensures
            final(self).wf(),
            final(self)@ == old(self)@.insert(entry.who, entry),
    {
        let who = entry.who;
        self.entries.insert(who, entry);
        assert forall|w: u64| #[trigger] self@.contains_key(w) implies entry_wf(w, self@[w]) by {
            if w != who {
                assert(old(self)@.contains_key(w));
            }
        }
    }

    /// Whether `who` has a lookup open at time `now`.
    pub fn has_pending(&self, who: u64, now: i64) -> (r: bool)
        ensures
            r == live_entry(self@, who, now) is Some,
    {
        match self.entries.get(&who) {
            Some(e) => !is_expired(e.when, now),
            None => false,
        }
    }

    /// The names of the candidates listed to `who`, in order; empty where
    /// `who` has no entry, or it has expired at time `now`.
    pub fn pending_names(&self, who: u64, now: i64) -> (r: Vec<String>)
        ensures
            live_entry(self@, who, now) matches Some(e) ==> r@.len() == e.finds@.len() && forall|j: int|
                0 <= j < r@.len() ==> #[trigger] r@[j]@ == e.finds@[j].name@,
            live_entry(self@, who, now) is None ==> r@.len() == 0,
    {
        let mut out: Vec<String> = Vec::new();
        match self.entries.get(&who) {
            Some(e) => {
                if is_expired(e.when, now) {
                    return out;
                }
                let mut i: usize = 0;
                while i < e.finds.len()
                    invariant
                        i <= e.finds@.len(),
                        out@.len() == i,
                        forall|j: int| 0 <= j < i ==> #[trigger] out@[j]@ == e.finds@[j].name@,
                    decreases e.finds@.len() - i,
                {
                    out.push(e.finds[i].name.clone());
                    i = i + 1;
                }
            },
            None => {},
        }
        out
    }

    /// Handles `reply` from `who` at time `now`: a number in range picks its
    /// candidate and closes the lookup; an expired lookup is dropped.
    pub fn answer(&mut self, who: u64, reply: &str, now: i64) -> (r: Answer)
        requires
            old(self).wf(),
        ensures
            final(self).wf(),
            answered(old(self)@, who, reply@, now, final(self)@, r),
    {
        let ghost m = self@;
        let parsed = parse_u64(reply);
        if parsed.is_none() && !digits_only(reply) {
            return Answer::NotASelection;
        }
        let open = self.has_pending(who, now);
        if !open {
            self.entries.remove(&who);
            return Answer::NothingPending;
        }
        let count = match self.entries.get(&who) {
            Some(e) => e.finds.len(),
            None => 0,
        };
        let chosen = match parsed {
            Some(n) => n,
            None => return Answer::OutOfRange,
        };
        if chosen < 1 || chosen > count as u64 {
            return Answer::OutOfRange;
        }
        match self.entries.remove(&who) {
            Some(e) => {
                let id = e.finds[(chosen - 1) as usize].id;
                let mut args = e.args;
                let idx = e.replace_index;
                args.set(idx, id_text(id));
                proof {
                    assert(args.deep_view() =~= resumed_args(m[who], chosen as int));
                }
                Answer::Resumed { args, id }
            },
            None => Answer::NothingPending,
        }
    }
}

/// The entry records a lookup by `who` in `channel` at `now` over `finds`,
/// for position `index` of `args`.
pub open spec fn records(
    e: FindsAwaitingAnswer,
    who: u64,
    channel: u64,
    now: i64,
    finds: Seq<Candidate>,
    args: Seq<Seq<char>>,
    index: usize,
) -> bool {
    &&& e.who == who
    &&& e.channel == channel
    &&& e.when == now
    &&& e.finds@ == finds
    &&& e.args.deep_view() == args
    &&& e.replace_index == index
}

/// What a lookup with outcome `res` does, for a table `m` before and `m2`
/// after: a found entity is returned; a listing opens a lookup for `who`,
/// replacing any earlier one, and returns `Ok(None)`; a failure leaves the
/// table alone.
pub open spec fn asked(
    m: Map<u64, FindsAwaitingAnswer>,
    who: u64,
    channel: u64,
    now: i64,
    res: Resolved,
    args: Seq<Seq<char>>,
    index: usize,
    kind: FindType,
    m2: Map<u64, FindsAwaitingAnswer>,
    r: Result<Option<u64>, FindError>,
) -> bool {
    match res {
        Resolved::Found(id) => r == Ok::<Option<u64>, FindError>(Some(id)) && m2 == m,
        Resolved::Missing => r == Err::<Option<u64>, FindError>(FindError::NotFound(kind)) && m2 == m,
        Resolved::TooMany => r == Err::<Option<u64>, FindError>(FindError::TooManyResults) && m2 == m,
        Resolved::Listing(hits) => {
            &&& r == Ok::<Option<u64>, FindError>(None)
            &&& m2.contains_key(who)
            &&& m2 == m.insert(who, m2[who])
            &&& records(m2[who], who, channel, now, hits, args, index)
        },
    }
}

/// What resolving `args[index]` (mention, identifier, then names) does.
pub open spec fn resolved_or_asked(
    m: Map<u64, FindsAwaitingAnswer>,
    who: u64,
    channel: u64,
    now: i64,
    mention: Option<u64>,
    objs: Seq<Candidate>,
    args: Seq<Seq<char>>,
    index: usize,
    kind: FindType,
    m2: Map<u64, FindsAwaitingAnswer>,
    r: Result<Option<u64>, FindError>,
) -> bool {
    asked(m, who, channel, now, resolution(mention, objs, args[index as int]), args, index, kind, m2, r)
}

fn copy_args(args: &Vec<String>) -> (r: Vec<String>)
    ensures
        r.deep_view() == args.deep_view(),
{
    let mut out: Vec<String> = Vec::new();
    let mut i: usize = 0;
    while i < args.len()
        invariant
            i <= args@.len(),
            out@.len() == i,
            forall|j: int| 0 <= j < i ==> #[trigger] out@[j]@ == args@[j]@,
        decreases args@.len() - i,
    {
        out.push(args[i].clone());
        i = i + 1;
    }
    assert(out.deep_view() =~= args.deep_view());
    out
}

/// The fuzzy pass over `objects` for `args[index]`, the reference typed by
/// `who` in `channel`: one hit is returned; several open a lookup for `who`
/// at time `now` and give `Ok(None)`; none, or too many, fail.
pub fn find_object(
    table: &mut PendingTable,
    who: u64,
    channel: u64,
    now: i64,
    objects: &Vec<Candidate>,
    args: &Vec<String>,
    index: usize,
    kind: FindType,
) -> (r: Result<Option<u64>, FindError>)
    requires
        old(table).wf(),
        index < args@.len(),
    ensures
        final(table).wf(),
        asked(
            old(table)@,
            who,
            channel,
            now,
            classified(fuzzy_hits(objects@, args.deep_view()[index as int])),
            args.deep_view(),
            index,
            kind,
            final(table)@,
            r,
        ),
{
    assert(args.deep_view()[index as int] == args@[index as int]@);
    match classify(fuzzy_matches(objects, &args[index]), kind) {
        Ok(Lookup::Found(id)) => Ok(Some(id)),
        Ok(Lookup::Ambiguous(finds)) => {
            let copied = copy_args(args);
            assert(copied@.len() == copied.deep_view().len());
            let entry = FindsAwaitingAnswer {
                who,
                channel,
                when: now,
                finds,
                args: copied,
                replace_index: index,
            };
            table.register(entry);
            Ok(None)
        },
        Err(e) => Err(e),
    }
}

/// Resolves `args[index]`, the reference typed by `who` in `channel`, against
/// `objects`; where several candidates fit, opens a lookup for `who` at time
/// `now` and returns `Ok(None)`.
pub fn resolve_reference(
    table: &mut PendingTable,
    who: u64,
    channel: u64,
    now: i64,
    mention: Option<u64>,
    objects: &Vec<Candidate>,
    args: &Vec<String>,
    index: usize,
    kind: FindType,
) -> (r: Result<Option<u64>, FindError>)
    requires
        old(table).wf(),
        index < args@.len(),
    ensures
        final(table).wf(),
        resolved_or_asked(
            old(table)@,
            who,
            channel,
            now,
            mention,
            objects@,
            args.deep_view(),
            index,
            kind,
            final(table)@,
            r,
        ),
{
    assert(args.deep_view()[index as int] == args@[index as int]@);
    if let Some(id) = mention {
        return Ok(Some(id));
    }
    if let Some(id) = exact_match(objects, &args[index]) {
        return Ok(Some(id));
    }
    find_object(table, who, channel, now, objects, args, index, kind)
}

/// The arguments that a `Resumed` answer hands back.
pub open spec fn resumed_tokens(r: Answer) -> Seq<Seq<char>> {
    match r {
        Answer::Resumed { args, id } => args.deep_view(),
        _ => seq![],
    }
}

/// A pick settles the reference: once `answer` has put the chosen identifier
/// in, resolving that position again against candidates that hold the chosen
/// one (and that its identifier may name) finds it, and leaves no lookup open
/// for the requester.
pub proof fn lemma_pick_resolves(
    m: Map<u64, FindsAwaitingAnswer>,
    who: u64,
    reply: Seq<char>,
    now: i64,
    m2: Map<u64, FindsAwaitingAnswer>,
    r: Answer,
    objs: Seq<Candidate>,
    i: int,
    channel: u64,
    now2: i64,
    kind: FindType,
    m3: Map<u64, FindsAwaitingAnswer>,
    r2: Result<Option<u64>, FindError>,
)
    requires
        m.contains_key(who) ==> entry_wf(who, m[who]),
        answered(m, who, reply, now, m2, r),
        r matches Answer::Resumed { args, id } && id == objs[i].id,
        0 <= i < objs.len(),
        objs[i].exact,
        resolved_or_asked(
            m2,
            who,
            channel,
            now2,
            None,
            objs,
            resumed_tokens(r),
            m[who].replace_index,
            kind,
            m3,
            r2,
        ),
    ensures
        r2 == Ok::<Option<u64>, FindError>(Some(objs[i].id)),
        !m3.contains_key(who),
{
    let e = m[who];
    let n = digits_value(reply);
    assert(resumed_tokens(r)[e.replace_index as int] == decimal(objs[i].id as nat));
    lemma_exact_id_wins(objs, i, decimal(objs[i].id as nat));
}

fn is_expired(when: i64, now: i64) -> (r: bool)
    ensures
        r == (now - when > EXPIRY_MS),
{
    (now as i128) - (when as i128) > EXPIRY_MS as i128
}

fn digits_only(s: &str) -> (r: bool)
    ensures
        r == all_digits(s@),
{
    let cs = crate::text::chars_of(s);
    if cs.len() == 0 {
        return false;
    }
    let mut i: usize = 0;
    while i < cs.len()
        invariant
            i <= cs@.len(),
            cs@ == s@,
            forall|k: int| 0 <= k < i ==> crate::text::is_digit(#[trigger] cs@[k]),
        decreases cs@.len() - i,
    {
        if cs[i] < '0' || cs[i] > '9' {
            return false;
        }
        i = i + 1;
    }
    true
}

} // verus!
