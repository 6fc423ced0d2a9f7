//! Lexical helpers: tokenizing, decimal numbers and case-insensitive search.
use vstd::prelude::*;
use vstd::std_specs::iter::IteratorSpec;

verus! {

/// Characters that separate tokens.
pub open spec fn is_space(c: char) -> bool {
    c == ' ' || c == '\t' || c == '\n' || c == '\r'
}

pub open spec fn is_digit(c: char) -> bool {
    '0' <= c && c <= '9'
}

pub open spec fn digit_value(c: char) -> nat {
    (c as u32 - 48) as nat
}

pub open spec fn digit_char(d: nat) -> char {
    ((d + 48) as u8) as char
}

/// All characters of `s` are decimal digits and there is at least one.
pub open spec fn all_digits(s: Seq<char>) -> bool {
    s.len() > 0 && forall|i: int| 0 <= i < s.len() ==> is_digit(#[trigger] s[i])
}

/// The number written by the digits of `s`, most significant first.
pub open spec fn digits_value(s: Seq<char>) -> nat
    decreases s.len(),
{
    if s.len() == 0 {
        0
    } else {
        digits_value(s.drop_last()) * 10 + digit_value(s.last())
    }
}

/// The canonical decimal text of `n`: no sign and no leading zero.
pub open spec fn decimal(n: nat) -> Seq<char>
    decreases n,
{
    if n < 10 {
        seq![digit_char(n)]
    } else {
        decimal(n / 10).push(digit_char(n % 10))
    }
}

/// The canonical decimal text of `n` writes `n`.
pub proof fn lemma_decimal_value(n: nat)
    ensures
        digits_value(decimal(n)) == n,
        all_digits(decimal(n)),
    decreases n,
{
    if n < 10 {
        assert(digit_value(digit_char(n)) == n);
        assert(decimal(n).drop_last() =~= Seq::<char>::empty());
        assert(digits_value(decimal(n)) == digits_value(Seq::<char>::empty()) * 10 + digit_value(digit_char(n)));
    } else {
        lemma_decimal_value(n / 10);
        let d = decimal(n);
        assert(d.drop_last() =~= decimal(n / 10));
        assert(digit_value(digit_char(n % 10)) == n % 10);
        assert(d.last() == digit_char(n % 10));
        assert(digits_value(d) == digits_value(decimal(n / 10)) * 10 + digit_value(d.last()));
        assert((n / 10) * 10 + n % 10 == n);
    }
}

/// Different numbers have different decimal texts.
pub proof fn lemma_decimal_injective(a: nat, b: nat)
    requires
        decimal(a) == decimal(b),
    ensures
        a == b,
{
    lemma_decimal_value(a);
    lemma_decimal_value(b);
}

/// Length of the leading run of characters of `s` that are not separators.
pub open spec fn word_len(s: Seq<char>) -> nat
    decreases s.len(),
{
    if s.len() == 0 || is_space(s[0]) {
        0
    } else {
        1 + word_len(s.drop_first())
    }
}

/// Length of the leading run of characters of `s` that are not a double quote.
pub open spec fn quoted_len(s: Seq<char>) -> nat
    decreases s.len(),
{
    if s.len() == 0 || s[0] == '"' {
        0
    } else {
        1 + quoted_len(s.drop_first())
    }
}

pub proof fn lemma_word_len_bound(s: Seq<char>)
    ensures
        word_len(s) <= s.len(),
        s.len() > 0 && !is_space(s[0]) ==> word_len(s) >= 1,
    decreases s.len(),
{
    if s.len() > 0 && !is_space(s[0]) {
        lemma_word_len_bound(s.drop_first());
    }
}

pub proof fn lemma_quoted_len_bound(s: Seq<char>)
    ensures
        quoted_len(s) <= s.len(),
        quoted_len(s) < s.len() ==> s[quoted_len(s) as int] == '"',
    decreases s.len(),
{
    if s.len() > 0 && s[0] != '"' {
        lemma_quoted_len_bound(s.drop_first());
    }
}

/// The tokens of `s`: maximal runs of non-separator characters, in order.
/// With `quoted`, a token that opens with `"` runs up to the next `"` (or to
/// the end of the text) and may hold separators; the quotes are dropped, and
/// an empty quoted span yields no token.
pub open spec fn tokens_of(s: Seq<char>, quoted: bool) -> Seq<Seq<char>>
    decreases s.len(),
{
    if s.len() == 0 {
        seq![]
    } else if is_space(s[0]) {
        tokens_of(s.drop_first(), quoted)
    } else if quoted && s[0] == '"' {
        let body = s.drop_first();
        let k = quoted_len(body);
        proof {
            lemma_quoted_len_bound(body);
        }
        let rest = if k < body.len() { body.skip(k + 1 as int) } else { body.skip(k as int) };
        if k == 0 {
            tokens_of(rest, quoted)
        } else {
            seq![body.take(k as int)] + tokens_of(rest, quoted)
        }
    } else {
        let k = word_len(s);
        proof {
            lemma_word_len_bound(s);
        }
        seq![s.take(k as int)] + tokens_of(s.skip(k as int), quoted)
    }
}

/// `needle` occurs in `hay` as a contiguous run, starting at some position.
pub open spec fn contains_run(hay: Seq<char>, needle: Seq<char>) -> bool {
    exists|p: int| 0 <= p <= hay.len() - needle.len() && #[trigger] hay.subrange(p, p + needle.len()) == needle
}

/// What `str::to_lowercase` makes of a text.
pub uninterp spec fn lower_of(s: Seq<char>) -> Seq<char>;

/// The characters of `s`, in order.
pub(crate) fn chars_of(s: &str) -> (r: Vec<char>)
    ensures
        r@ == s@,
{
    broadcast use vstd::string::group_string_axioms;

    let mut it = s.chars();
    let mut out: Vec<char> = Vec::new();
    loop
        invariant_except_break
            out@ + it.remaining() == s@,
            it.decrease() is Some,
        ensures
            out@ == s@,
        decreases it.decrease()->0,
    {
        match it.next() {
            Some(c) => {
                let ghost rest = it.remaining();
                out.push(c);
                assert(out@ + rest =~= s@);
            },
            None => {
                assert(out@ =~= s@);
                break;
            },
        }
    }
    out
}

/// Relies on collecting characters into a `String` (`FromIterator<char>`):
/// the text holds exactly the characters `cs[lo..hi]` in order.
#[verifier::external_body]
pub(crate) fn string_of(cs: &Vec<char>, lo: usize, hi: usize) -> (r: String)
    requires
        lo <= hi <= cs@.len(),
    ensures
        r@ == cs@.subrange(lo as int, hi as int),
{
    cs[lo..hi].iter().collect()
}

fn char_is_space(c: char) -> (r: bool)
    ensures
        r == is_space(c),
{
    c == ' ' || c == '\t' || c == '\n' || c == '\r'
}

/// The canonical decimal text of `n`, as a `String`.
pub fn id_text(n: u64) -> (r: String)
    ensures
        r@ == decimal(n as nat),
{
    let mut digits: Vec<char> = Vec::new();
    let mut m: u64 = n;
    loop
        invariant_except_break
            decimal(n as nat) == decimal(m as nat) + digits@,
        ensures
            decimal(n as nat) == digits@,
        decreases m,
    {
        let d = (m % 10) as u8;
        let c = (d + 48) as char;
        let ghost before = digits@;
        digits.insert(0, c);
        assert(digits@ =~= seq![digit_char((m % 10) as nat)] + before);
        if m < 10 {
            assert(decimal(m as nat) == seq![digit_char(m as nat)]);
            assert(decimal(n as nat) =~= digits@);
            break;
        }
        assert(decimal(m as nat) == decimal((m / 10) as nat).push(digit_char((m % 10) as nat)));
        assert(decimal(m as nat) + before =~= decimal((m / 10) as nat) + digits@);
        m = m / 10;
    }
    let len = digits.len();
    assert(digits@.subrange(0, len as int) =~= digits@);
    string_of(&digits, 0, len)
}

/// The number that `s` writes in decimal, where `s` is a run of digits whose
/// value fits in 64 bits; `None` for any other text.
pub fn parse_u64(s: &str) -> (r: Option<u64>)
    ensures
        r == (if all_digits(s@) && digits_value(s@) <= u64::MAX {
            Some(digits_value(s@) as u64)
        } else {
            None::<u64>
        }),
{
    let cs = chars_of(s);
    let n = cs.len();
    if n == 0 {
        return None;
    }
    let mut v: u64 = 0;
    let mut i: usize = 0;
    while i < n
        invariant
            i <= n,
            n == cs@.len(),
            cs@ == s@,
            v as nat == digits_value(cs@.take(i as int)),
            forall|k: int| 0 <= k < i ==> is_digit(#[trigger] cs@[k]),
        decreases n - i,
    {
        let c = cs[i];
        assert(cs@.take(i + 1).drop_last() =~= cs@.take(i as int));
        if c < '0' || c > '9' {
            return None;
        }
        let d = (c as u32 - 48) as u64;
        if v > (u64::MAX - d) / 10 {
            proof {
                lemma_digits_value_grows(cs@, i as int + 1);
            }
            return None;
        }
        v = v * 10 + d;
        i = i + 1;
    }
    assert(cs@.take(n as int) =~= cs@);
    Some(v)
}

/// Extending a run of digits never makes its value smaller.
pub proof fn lemma_digits_value_grows(s: Seq<char>, k: int)
    requires
        0 <= k <= s.len(),
    ensures
        digits_value(s.take(k)) <= digits_value(s),
    decreases s.len() - k,
{
    if k < s.len() {
        lemma_digits_value_grows(s, k + 1);
        assert(s.take(k + 1).drop_last() =~= s.take(k));
    } else {
        assert(s.take(k) =~= s);
    }
}

/// Appends the characters of `s` to `out`.
pub(crate) fn push_text(out: &mut Vec<char>, s: &str)
    ensures
        final(out)@ == old(out)@ + s@,
{
    let cs = chars_of(s);
    let mut i: usize = 0;
    while i < cs.len()
        invariant
            i <= cs@.len(),
            cs@ == s@,
            out@ == old(out)@ + cs@.take(i as int),
        decreases cs@.len() - i,
    {
        out.push(cs[i]);
        assert(cs@.take(i + 1) =~= cs@.take(i as int).push(cs@[i as int]));
        i = i + 1;
    }
    assert(cs@.take(i as int) =~= cs@);
}

/// Whether `needle` occurs in `hay` as a contiguous run.
pub fn matches_folded(hay: &str, needle: &str) -> (r: bool)
    ensures
        r == contains_run(hay@, needle@),
{
    let h = chars_of(hay);
    let w = chars_of(needle);
    let hl = h.len();
    let wl = w.len();
    if wl > hl {
        return false;
    }
    let mut p: usize = 0;
    while p <= hl - wl
        invariant
            wl <= hl,
            h@ == hay@,
            w@ == needle@,
            hl == h@.len(),
            wl == w@.len(),
            forall|q: int| 0 <= q < p ==> #[trigger] h@.subrange(q, q + wl) != w@,
        decreases hl - wl + 1 - p,
    {
        let mut k: usize = 0;
        while k < wl && h[p + k] == w[k]
            invariant
                k <= wl,
                p + wl <= hl,
                hl == h@.len(),
                wl == w@.len(),
                forall|j: int| 0 <= j < k ==> h@[p + j] == w@[j],
            decreases wl - k,
        {
            k = k + 1;
        }
        if k == wl {
            assert(h@.subrange(p as int, p + wl) =~= w@);
            return true;
        }
        assert(h@.subrange(p as int, p + wl)[k as int] != w@[k as int]);
        p = p + 1;
    }
    false
}

/// Case-insensitive substring test: whether the lower-case form of `token`
/// occurs in the lower-case form of `name`.
pub fn name_matches(name: &str, token: &str) -> (r: bool)
    ensures
        r == contains_run(lower_of(name@), lower_of(token@)),
{
    let n = lowercase(name);
    let t = lowercase(token);
    matches_folded(n.as_str(), t.as_str())
}

/// Splits `raw` into its tokens (see `tokens_of`).
pub fn tokenize(raw: &str, preserve_quoted: bool) -> (r: Vec<String>)
    ensures
        r.deep_view() == tokens_of(raw@, preserve_quoted),
{
    let cs = chars_of(raw);
    let n = cs.len();
    let mut toks: Vec<String> = Vec::new();
    let mut i: usize = 0;
    proof {
        assert(cs@.skip(0) =~= cs@);
        assert(toks.deep_view() =~= Seq::<Seq<char>>::empty());
    }
    while i < n
        invariant
            i <= n,
            n == cs@.len(),
            cs@ == raw@,
            tokens_of(raw@, preserve_quoted) == toks.deep_view() + tokens_of(
                cs@.skip(i as int),
                preserve_quoted,
            ),
        decreases n - i,
    {
        let ghost old_toks = toks.deep_view();
        let ghost s = cs@.skip(i as int);
        let c = cs[i];
        if char_is_space(c) {
            assert(s.drop_first() =~= cs@.skip(i + 1));
            i = i + 1;
        } else if preserve_quoted && c == '"' {
            let mut j: usize = i + 1;
            proof {
                assert(s.drop_first() =~= cs@.skip(j as int));
            }
            while j < n && cs[j] != '"'
                invariant
                    i + 1 <= j <= n,
                    n == cs@.len(),
                    quoted_len(s.drop_first()) == (j - (i + 1)) + quoted_len(cs@.skip(j as int)),
                decreases n - j,
            {
                assert(cs@.skip(j as int).drop_first() =~= cs@.skip(j + 1));
                j = j + 1;
            }
            let ghost body = s.drop_first();
            let ghost k = quoted_len(body);
            assert(quoted_len(cs@.skip(j as int)) == 0);
            assert(k == j - (i + 1));
            let next = if j < n {
                j + 1
            } else {
                j
            };
            assert(body.skip(if k < body.len() { k + 1 as int } else { k as int }) =~= cs@.skip(
                next as int,
            ));
            if j > i + 1 {
                let t = string_of(&cs, i + 1, j);
                assert(body.take(k as int) =~= cs@.subrange(i + 1, j as int));
                toks.push(t);
                assert(toks.deep_view() =~= old_toks.push(t@));
            }
            proof {
                assert(tokens_of(s, preserve_quoted) == if k == 0 {
                    tokens_of(cs@.skip(next as int), preserve_quoted)
                } else {
                    seq![body.take(k as int)] + tokens_of(cs@.skip(next as int), preserve_quoted)
                });
                assert(tokens_of(raw@, preserve_quoted) =~= toks.deep_view() + tokens_of(
                    cs@.skip(next as int),
                    preserve_quoted,
                ));
            }
            i = next;
        } else {
            let mut j: usize = i;
            while j < n && !char_is_space(cs[j])
                invariant
                    i <= j <= n,
                    n == cs@.len(),
                    word_len(s) == (j - i) + word_len(cs@.skip(j as int)),
                decreases n - j,
            {
                assert(cs@.skip(j as int).drop_first() =~= cs@.skip(j + 1));
                j = j + 1;
            }
            assert(word_len(cs@.skip(j as int)) == 0);
            proof {
                lemma_word_len_bound(s);
            }
            let t = string_of(&cs, i, j);
            assert(s.take(word_len(s) as int) =~= cs@.subrange(i as int, j as int));
            assert(s.skip(word_len(s) as int) =~= cs@.skip(j as int));
            toks.push(t);
            proof {
                assert(toks.deep_view() =~= old_toks.push(t@));
                assert(tokens_of(raw@, preserve_quoted) =~= toks.deep_view() + tokens_of(
                    cs@.skip(j as int),
                    preserve_quoted,
                ));
            }
            i = j;
        }
    }
    proof {
        assert(toks.deep_view() + tokens_of(cs@.skip(i as int), preserve_quoted) =~= toks.deep_view());
    }
    toks
}

/// Relies on `str::to_lowercase`: the result depends on the characters alone.
#[verifier::external_body]
pub(crate) fn lowercase(s: &str) -> (r: String)
    ensures
        r@ == lower_of(s@),
{
    s.to_lowercase()
}

} // verus!
