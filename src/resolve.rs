//! Resolving a token that names a channel, role or member.
use vstd::prelude::*;
use crate::text::{
    chars_of, contains_run, decimal, id_text, lemma_decimal_injective, lower_of, name_matches, push_text, string_of,
};

verus! {

/// The most candidates that a disambiguation listing shows.
pub const MAX_LISTED: usize = 15;

/// The most members fetched from the chat service for one lookup.
pub const MEMBER_FETCH_LIMIT: u64 = 1000;

/// How many members to fetch for a lookup in a guild of `member_count`
/// members (unknown where the guild is not cached): never more than
/// `MEMBER_FETCH_LIMIT`.
pub fn member_fetch_limit(member_count: Option<u64>) -> (r: u64)
    ensures
        r == match member_count {
            Some(c) => if c > MEMBER_FETCH_LIMIT {
                MEMBER_FETCH_LIMIT
            } else {
                c
            },
            None => MEMBER_FETCH_LIMIT,
        },
{
    match member_count {
        Some(c) => if c > MEMBER_FETCH_LIMIT {
            MEMBER_FETCH_LIMIT
        } else {
            c
        },
        None => MEMBER_FETCH_LIMIT,
    }
}

/// The kind of a channel, as far as its label shows it.
#[derive(Clone, Copy, PartialEq, Eq, Structural, Debug)]
pub enum ChannelKind {
    Text,
    Voice,
    Other,
}

pub open spec fn channel_icon(kind: ChannelKind) -> Seq<char> {
    match kind {
        ChannelKind::Text => "\u{1f5d2}\u{fe0f}"@,
        ChannelKind::Voice => "\u{1f399}\u{fe0f}"@,
        ChannelKind::Other => "\u{1f4c2}"@,
    }
}

/// The name a channel is listed under: an icon for its kind, a space, and
/// its name.
pub fn channel_label(kind: ChannelKind, name: &str) -> (r: String)
    ensures
        r@ == channel_icon(kind) + seq![' '] + name@,
{
    let icon = match kind {
        ChannelKind::Text => "\u{1f5d2}\u{fe0f}",
        ChannelKind::Voice => "\u{1f399}\u{fe0f}",
        ChannelKind::Other => "\u{1f4c2}",
    };
    let mut out = chars_of(icon);
    out.push(' ');
    let tail = chars_of(name);
    let ghost head = out@;
    let mut i: usize = 0;
    while i < tail.len()
        invariant
            i <= tail@.len(),
            out@ == head + tail@.take(i as int),
        decreases tail@.len() - i,
    {
        out.push(tail[i]);
        assert(tail@.take(i + 1) =~= tail@.take(i as int).push(tail@[i as int]));
        i = i + 1;
    }
    assert(tail@.take(i as int) =~= tail@);
    assert(out@.subrange(0, out@.len() as int) =~= out@);
    let n = out.len();
    string_of(&out, 0, n)
}

/// The numbered listing of a disambiguation prompt: one line per name, in
/// order, numbered from 1, as `**n.** name`.
pub open spec fn listing_of(names: Seq<Seq<char>>) -> Seq<char>
    decreases names.len(),
{
    if names.len() == 0 {
        seq![]
    } else {
        listing_of(names.drop_last()) + "**"@ + decimal(names.len()) + ".** "@ + names.last() + "\n"@
    }
}

/// Renders the numbered listing of the candidates' names (see `listing_of`).
pub fn numbered_listing(names: &Vec<String>) -> (r: String)
    ensures
        r@ == listing_of(names.deep_view()),
{
    let mut out: Vec<char> = Vec::new();
    let mut i: usize = 0;
    assert(names.deep_view().take(0) =~= Seq::<Seq<char>>::empty());
    while i < names.len()
        invariant
            i <= names@.len(),
            out@ == listing_of(names.deep_view().take(i as int)),
        decreases names@.len() - i,
    {
        let ghost before = out@;
        push_text(&mut out, "**");
        let num = id_text((i + 1) as u64);
        push_text(&mut out, num.as_str());
        push_text(&mut out, ".** ");
        push_text(&mut out, names[i].as_str());
        push_text(&mut out, "\n");
        proof {
            let t = names.deep_view().take(i + 1);
            assert(t.drop_last() =~= names.deep_view().take(i as int));
            assert(t.last() == names@[i as int]@);
            assert(t.len() == i + 1);
            assert(out@ =~= listing_of(t));
        }
        i = i + 1;
    }
    assert(names.deep_view().take(i as int) =~= names.deep_view());
    let n = out.len();
    assert(out@.subrange(0, n as int) =~= out@);
    string_of(&out, 0, n)
}

/// The kind of entity a reference names.
#[derive(Clone, Copy, PartialEq, Eq, Structural, Debug)]
pub enum FindType {
    Role,
    User,
    Channel,
}

impl FindType {
    /// The word that user-facing messages use for this kind.
    pub fn label(&self) -> (r: String)
        ensures
            r@ == kind_label(*self),
    {
        match self {
            FindType::Channel => "channel".to_owned(),
            FindType::Role => "role".to_owned(),
            FindType::User => "user".to_owned(),
        }
    }
}

pub open spec fn kind_label(k: FindType) -> Seq<char> {
    match k {
        FindType::Channel => "channel"@,
        FindType::Role => "role"@,
        FindType::User => "user"@,
    }
}

/// A platform entity that a reference may name: its identifier, the name
/// shown to users, and whether its identifier alone may name it (a channel
/// lookup takes only text channels by identifier, every channel by name).
#[derive(Debug)]
pub struct Candidate {
    pub id: u64,
    pub name: String,
    pub exact: bool,
}

/// What can be looked up by identifier and shown by name.
pub trait FindObject {
    /// The identifier.
    spec fn id_of(&self) -> u64;

    /// The name shown to users.
    spec fn name_of(&self) -> Seq<char>;

    fn get_id(&self) -> (r: u64)
        ensures
            r == self.id_of(),
    ;

    fn get_name(&self) -> (r: String)
        ensures
            r@ == self.name_of(),
    ;
}

impl FindObject for Candidate {
    open spec fn id_of(&self) -> u64 {
        self.id
    }

    open spec fn name_of(&self) -> Seq<char> {
        self.name@
    }

    fn get_id(&self) -> (r: u64) {
        self.id
    }

    fn get_name(&self) -> (r: String) {
        self.name.clone()
    }
}

impl Candidate {
    /// A candidate that its identifier or its name may name.
    pub fn new(id: u64, name: String) -> (r: Candidate)
        ensures
            r.id == id,
            r.name == name,
            r.exact,
    {
        Candidate { id, name, exact: true }
    }

    /// A candidate that only its name may name.
    pub fn by_name_only(id: u64, name: String) -> (r: Candidate)
        ensures
            r.id == id,
            r.name == name,
            !r.exact,
    {
        Candidate { id, name, exact: false }
    }

    /// A copy of this candidate.
    pub fn duplicate(&self) -> (r: Candidate)
        ensures
            r == *self,
    {
        Candidate { id: self.id, name: self.name.clone(), exact: self.exact }
    }
}

/// The outcome of a lookup that did not fail.
#[derive(Debug)]
pub enum Lookup {
    /// The reference names this entity.
    Found(u64),
    /// The reference fits several entities; the user has to pick one.
    Ambiguous(Vec<Candidate>),
}

/// Why a lookup failed.
#[derive(Clone, Copy, PartialEq, Eq, Structural, Debug)]
pub enum FindError {
    NotFound(FindType),
    TooManyResults,
}

/// A lookup's outcome as plain values.
pub enum Resolved {
    Found(u64),
    Listing(Seq<Candidate>),
    Missing,
    TooMany,
}

pub open spec fn resolved_of(r: Result<Lookup, FindError>) -> Resolved {
    match r {
        Ok(Lookup::Found(id)) => Resolved::Found(id),
        Ok(Lookup::Ambiguous(v)) => Resolved::Listing(v@),
        Err(FindError::NotFound(_)) => Resolved::Missing,
        Err(FindError::TooManyResults) => Resolved::TooMany,
    }
}

/// The candidate's name holds the token, both taken in lower case.
pub open spec fn fuzzy_hit(c: Candidate, token: Seq<char>) -> bool {
    contains_run(lower_of(c.name@), lower_of(token))
}

/// The candidates whose names hold the token, in their order.
pub open spec fn fuzzy_hits(objs: Seq<Candidate>, token: Seq<char>) -> Seq<Candidate>
    decreases objs.len(),
{
    if objs.len() == 0 {
        seq![]
    } else {
        let rest = fuzzy_hits(objs.drop_last(), token);
        if fuzzy_hit(objs.last(), token) {
            rest.push(objs.last())
        } else {
            rest
        }
    }
}

/// How many fuzzy hits turn into which outcome.
pub open spec fn classified(hits: Seq<Candidate>) -> Resolved {
    if hits.len() == 0 {
        Resolved::Missing
    } else if hits.len() == 1 {
        Resolved::Found(hits[0].id)
    } else if hits.len() <= MAX_LISTED {
        Resolved::Listing(hits)
    } else {
        Resolved::TooMany
    }
}

/// The identifier of the first candidate, from index `i` on, that its
/// identifier may name and whose identifier written in decimal is the token.
pub open spec fn id_hit(objs: Seq<Candidate>, token: Seq<char>, i: int) -> Option<u64>
    decreases objs.len() - i,
{
    if i < 0 || i >= objs.len() {
        None
    } else if objs[i].exact && decimal(objs[i].id as nat) == token {
        Some(objs[i].id)
    } else {
        id_hit(objs, token, i + 1)
    }
}

/// A mention wins; then a candidate whose identifier is the token; then the
/// fuzzy pass.
pub open spec fn resolution(mention: Option<u64>, objs: Seq<Candidate>, token: Seq<char>) -> Resolved {
    match mention {
        Some(id) => Resolved::Found(id),
        None => match id_hit(objs, token, 0) {
            Some(id) => Resolved::Found(id),
            None => classified(fuzzy_hits(objs, token)),
        },
    }
}

/// The candidates whose names hold `token`, case-insensitively, in order.
pub fn fuzzy_matches(objects: &Vec<Candidate>, token: &String) -> (r: Vec<Candidate>)
    ensures
        r@ == fuzzy_hits(objects@, token@),
{
    let mut out: Vec<Candidate> = Vec::new();
    let mut i: usize = 0;
    assert(objects@.take(0) =~= Seq::<Candidate>::empty());
    while i < objects.len()
        invariant
            i <= objects@.len(),
            out@ == fuzzy_hits(objects@.take(i as int), token@),
        decreases objects@.len() - i,
    {
        assert(objects@.take(i + 1).drop_last() =~= objects@.take(i as int));
        if name_matches(objects[i].name.as_str(), token.as_str()) {
            out.push(objects[i].duplicate());
        }
        i = i + 1;
    }
    assert(objects@.take(i as int) =~= objects@);
    out
}

/// Turns the fuzzy hits into an outcome: none is a `NotFound` of `kind`, one
/// is found, up to `MAX_LISTED` ask the user, more are too many.
pub fn classify(hits: Vec<Candidate>, kind: FindType) -> (r: Result<Lookup, FindError>)
    ensures
        resolved_of(r) == classified(hits@),
        r matches Err(FindError::NotFound(k)) ==> k == kind,
{
    let n = hits.len();
    if n == 0 {
        Err(FindError::NotFound(kind))
    } else if n == 1 {
        Ok(Lookup::Found(hits[0].id))
    } else if n <= MAX_LISTED {
        Ok(Lookup::Ambiguous(hits))
    } else {
        Err(FindError::TooManyResults)
    }
}

/// The identifier of the first candidate that its identifier may name and
/// whose identifier, in decimal, is `token`.
pub fn exact_match(objects: &Vec<Candidate>, token: &String) -> (r: Option<u64>)
    ensures
        r == id_hit(objects@, token@, 0),
{
    let mut i: usize = 0;
    while i < objects.len()
        invariant
            i <= objects@.len(),
            id_hit(objects@, token@, 0) == id_hit(objects@, token@, i as int),
        decreases objects@.len() - i,
    {
        let t = id_text(objects[i].id);
        if objects[i].exact && t == *token {
            return Some(objects[i].id);
        }
        i = i + 1;
    }
    None
}

/// Resolves `token` against `objects`: a mention of the originating message
/// first, then an exact identifier, then the fuzzy pass.
pub fn resolve(mention: Option<u64>, objects: &Vec<Candidate>, token: &String, kind: FindType) -> (r:
    Result<Lookup, FindError>)
    ensures
        resolved_of(r) == resolution(mention, objects@, token@),
        r matches Err(FindError::NotFound(k)) ==> k == kind,
{
    if let Some(id) = mention {
        return Ok(Lookup::Found(id));
    }
    if let Some(id) = exact_match(objects, token) {
        return Ok(Lookup::Found(id));
    }
    classify(fuzzy_matches(objects, token), kind)
}

proof fn lemma_id_hit(objs: Seq<Candidate>, token: Seq<char>, k: int)
    requires
        0 <= k,
    ensures
        match id_hit(objs, token, k) {
            Some(id) => decimal(id as nat) == token && exists|j: int|
                k <= j < objs.len() && (#[trigger] objs[j]).id == id && objs[j].exact,
            None => forall|j: int|
                k <= j < objs.len() && (#[trigger] objs[j]).exact ==> decimal(objs[j].id as nat) != token,
        },
    decreases objs.len() - k,
{
    if k < objs.len() {
        if !(objs[k].exact && decimal(objs[k].id as nat) == token) {
            lemma_id_hit(objs, token, k + 1);
        } else {
            assert(objs[k].id == objs[k].id);
        }
    }
}

/// A token that writes the identifier of a candidate that its identifier may
/// name resolves to that candidate, before and without the fuzzy pass.
pub proof fn lemma_exact_id_wins(objs: Seq<Candidate>, i: int, token: Seq<char>)
    requires
        0 <= i < objs.len(),
        objs[i].exact,
        token == decimal(objs[i].id as nat),
    ensures
        id_hit(objs, token, 0) == Some(objs[i].id),
        resolution(None, objs, token) == Resolved::Found(objs[i].id),
{
    lemma_id_hit(objs, token, 0);
    if let Some(id) = id_hit(objs, token, 0) {
        lemma_decimal_injective(id as nat, objs[i].id as nat);
    }
}

proof fn lemma_all_hit(objs: Seq<Candidate>, token: Seq<char>)
    requires
        forall|j: int| 0 <= j < objs.len() ==> fuzzy_hit(#[trigger] objs[j], token),
    ensures
        fuzzy_hits(objs, token) == objs,
    decreases objs.len(),
{
    if objs.len() > 0 {
        let rest = objs.drop_last();
        assert forall|j: int| 0 <= j < rest.len() implies fuzzy_hit(#[trigger] rest[j], token) by {
            assert(rest[j] == objs[j]);
        }
        lemma_all_hit(rest, token);
        assert(fuzzy_hit(objs[objs.len() - 1], token));
        assert(rest.push(objs.last()) =~= objs);
    }
}

/// More than `MAX_LISTED` candidates whose names all hold the token give
/// `TooManyResults`, never a partial listing (where no mention is given and
/// no identifier that may name its candidate is the token, which would win
/// first).
pub proof fn lemma_too_many(objs: Seq<Candidate>, token: Seq<char>)
    requires
        objs.len() > MAX_LISTED,
        forall|j: int| 0 <= j < objs.len() ==> fuzzy_hit(#[trigger] objs[j], token),
        forall|j: int|
            0 <= j < objs.len() && (#[trigger] objs[j]).exact ==> decimal(objs[j].id as nat) != token,
    ensures
        resolution(None, objs, token) == Resolved::TooMany,
{
    lemma_id_hit(objs, token, 0);
    lemma_all_hit(objs, token);
}

} // verus!
