//! Characters, whitespace and the tokens that whitespace delimits.

use vstd::prelude::*;

verus! {

/// Whether `c` has the Unicode `White_Space` property.
pub open spec fn is_whitespace(c: char) -> bool {
    let n = c as u32;
    ||| 0x09 <= n <= 0x0D
    ||| n == 0x20
    ||| n == 0x85
    ||| n == 0xA0
    ||| n == 0x1680
    ||| 0x2000 <= n <= 0x200A
    ||| n == 0x2028
    ||| n == 0x2029
    ||| n == 0x202F
    ||| n == 0x205F
    ||| n == 0x3000
}

/// Whether no character of `s` is whitespace.
pub open spec fn whitespace_free(s: Seq<char>) -> bool {
    forall|i: int| 0 <= i < s.len() ==> !is_whitespace(#[trigger] s[i])
}

/// Length of the longest whitespace-free prefix of `s`.
pub open spec fn token_len(s: Seq<char>) -> nat
    decreases s.len(),
{
    if s.len() == 0 || is_whitespace(s[0]) {
        0
    } else {
        1 + token_len(s.drop_first())
    }
}

/// The tokens of `s`: its maximal whitespace-free runs, in the order in which they appear.
pub open spec fn tokens(s: Seq<char>) -> Seq<Seq<char>>
    decreases s.len(),
    via tokens_decreases
{
    if s.len() == 0 {
        Seq::empty()
    } else if is_whitespace(s[0]) {
        tokens(s.drop_first())
    } else {
        seq![s.take(token_len(s) as int)] + tokens(s.skip(token_len(s) as int))
    }
}

#[via_fn]
proof fn tokens_decreases(s: Seq<char>) {
    lemma_token_len(s);
}

/// `token_len(s)` stays within `s`, covers no whitespace, and stops at whitespace or at the
/// end of `s`.
pub proof fn lemma_token_len(s: Seq<char>)
    ensures
        token_len(s) <= s.len(),
        whitespace_free(s.take(token_len(s) as int)),
        token_len(s) < s.len() ==> is_whitespace(s[token_len(s) as int]),
        s.len() > 0 && !is_whitespace(s[0]) ==> token_len(s) > 0,
    decreases s.len(),
{
    if s.len() == 0 || is_whitespace(s[0]) {
    } else {
        let rest = s.drop_first();
        lemma_token_len(rest);
        let n = token_len(s) as int;
        assert forall|i: int| 0 <= i < n implies !is_whitespace(#[trigger] s.take(n)[i]) by {
            if i > 0 {
                assert(s.take(n)[i] == rest.take(n - 1)[i - 1]);
            }
        }
        if n < s.len() {
            assert(s[n] == rest[n - 1]);
        }
    }
}

/// A whitespace-free run of `n` characters that ends `s` or is followed by whitespace is the
/// first token of `s`.
pub proof fn lemma_token_len_is(s: Seq<char>, n: int)
    requires
        0 <= n <= s.len(),
        whitespace_free(s.take(n)),
        n < s.len() ==> is_whitespace(s[n]),
    ensures
        token_len(s) == n,
    decreases n,
{
    if n == 0 {
    } else {
        assert(s[0] == s.take(n)[0]);
        let rest = s.drop_first();
        assert forall|i: int| 0 <= i < n - 1 implies !is_whitespace(#[trigger] rest.take(n - 1)[i]) by {
            assert(rest.take(n - 1)[i] == s.take(n)[i + 1]);
        }
        lemma_token_len_is(rest, n - 1);
    }
}

/// Whether `a` and `b` meet at a token boundary: whether no token of `a + b` would span the
/// place where the two are joined.
pub open spec fn meet_at_boundary(a: Seq<char>, b: Seq<char>) -> bool {
    a.len() == 0 || b.len() == 0 || is_whitespace(a.last()) || is_whitespace(b[0])
}

/// Text joined at a token boundary has the tokens of its first part, then those of its
/// second part.
pub proof fn lemma_tokens_concat(a: Seq<char>, b: Seq<char>)
    requires
        meet_at_boundary(a, b),
    ensures
        tokens(a + b) == tokens(a) + tokens(b),
    decreases a.len(),
{
    let whole = a + b;
    if a.len() == 0 {
        assert(whole =~= b);
        assert(tokens(a) + tokens(b) =~= tokens(b));
    } else if is_whitespace(a[0]) {
        let rest = a.drop_first();
        assert(whole[0] == a[0]);
        assert(whole.drop_first() =~= rest + b);
        if rest.len() > 0 {
            assert(rest.last() == a.last());
        }
        lemma_tokens_concat(rest, b);
    } else {
        let n = token_len(a) as int;
        lemma_token_len(a);
        assert(whole[0] == a[0]);
        assert(whole.take(n) =~= a.take(n));
        if n < a.len() {
            assert(whole[n] == a[n]);
        } else {
            assert(a.take(n) =~= a);
            assert(!is_whitespace(a.take(n)[n - 1]));
            if b.len() > 0 {
                assert(whole[n] == b[0]);
            }
        }
        lemma_token_len_is(whole, n);
        let rest = a.skip(n);
        assert(whole.skip(n) =~= rest + b);
        if rest.len() > 0 {
            assert(rest.last() == a.last());
        }
        lemma_tokens_concat(rest, b);
        assert(seq![a.take(n)] + (tokens(rest) + tokens(b)) =~= (seq![a.take(n)] + tokens(rest))
            + tokens(b));
    }
}

/// A whitespace-free run of one or more characters is a single token.
pub proof fn lemma_tokens_single(token: Seq<char>)
    requires
        token.len() > 0,
        whitespace_free(token),
    ensures
        tokens(token) == seq![token],
{
    let n = token.len() as int;
    assert(token.take(n) =~= token);
    lemma_token_len_is(token, n);
    assert(!is_whitespace(token[0]));
    assert(token.skip(n) =~= Seq::<char>::empty());
    assert(tokens(token.skip(n)) =~= Seq::<Seq<char>>::empty());
    assert(seq![token] + Seq::<Seq<char>>::empty() =~= seq![token]);
}

/// A token that stands on its own between `before` and `after` is a token of the whole,
/// between the tokens of `before` and those of `after`.
pub proof fn lemma_tokens_around(before: Seq<char>, token: Seq<char>, after: Seq<char>)
    requires
        token.len() > 0,
        whitespace_free(token),
        before.len() == 0 || is_whitespace(before.last()),
        after.len() == 0 || is_whitespace(after[0]),
    ensures
        tokens(before + token + after) == tokens(before) + seq![token] + tokens(after),
        tokens(before + after) == tokens(before) + tokens(after),
{
    lemma_tokens_concat(before, after);
    lemma_tokens_concat(before, token + after);
    lemma_tokens_concat(token, after);
    lemma_tokens_single(token);
    assert(before + token + after =~= before + (token + after));
    assert(tokens(before) + (seq![token] + tokens(after)) =~= tokens(before) + seq![token]
        + tokens(after));
}

/// Decides whether `c` is whitespace.
pub fn char_is_whitespace(c: char) -> (r: bool)
    ensures
        r == is_whitespace(c),
{
    let n: u32 = c as u32;
    (0x09 <= n && n <= 0x0D) || n == 0x20 || n == 0x85 || n == 0xA0 || n == 0x1680 || (0x2000 <= n
        && n <= 0x200A) || n == 0x2028 || n == 0x2029 || n == 0x202F || n == 0x205F || n == 0x3000
}

/// The characters of `s`, in order.
pub(crate) fn to_chars(s: &str) -> (v: Vec<char>)
    ensures
        v@ == s@,
{
    let mut v: Vec<char> = Vec::new();
    for c in it: s.chars()
        invariant
            v@ == it.seq().take(it.index() as int),
    {
        v.push(c);
    }
    v
}

/// Decides whether `chars` begins with the characters of `prefix`.
pub(crate) fn starts_with(chars: &Vec<char>, prefix: &str) -> (r: bool)
    ensures
        r == prefix@.is_prefix_of(chars@),
{
    let mut n: usize = 0;
    for c in it: prefix.chars()
        invariant
            n == it.index(),
            it.seq() == prefix@,
            n <= chars.len(),
            forall|k: int| 0 <= k < n ==> chars[k] == prefix@[k],
    {
        if n >= chars.len() || chars[n] != c {
            return false;
        }
        n = n + 1;
    }
    assert(chars@.subrange(0, n as int) =~= prefix@);
    true
}

/// Decides whether `chars` holds exactly the characters of `word`.
pub(crate) fn spells(chars: &Vec<char>, word: &str) -> (r: bool)
    ensures
        r == (chars@ == word@),
{
    if starts_with(chars, word) {
        let n: usize = word.unicode_len();
        assert(chars@.len() == n ==> chars@.subrange(0, n as int) =~= chars@);
        chars.len() == n
    } else {
        assert(chars@ == word@ ==> chars@.subrange(0, word@.len() as int) =~= word@);
        false
    }
}

/// The index at which the token that begins at `start` ends.
pub(crate) fn token_end(chars: &Vec<char>, start: usize) -> (end: usize)
    requires
        start < chars.len(),
        !is_whitespace(chars[start as int]),
    ensures
        start < end <= chars.len(),
        end - start == token_len(chars@.skip(start as int)),
{
    let mut end: usize = start + 1;
    while end < chars.len() && !char_is_whitespace(chars[end])
        invariant
            start < end <= chars.len(),
            forall|k: int| start <= k < end ==> !is_whitespace(chars[k]),
        decreases chars.len() - end,
    {
        end = end + 1;
    }
    proof {
        let rest = chars@.skip(start as int);
        assert forall|i: int| 0 <= i < end - start implies !is_whitespace(
            #[trigger] rest.take(end - start)[i],
        ) by {
            assert(rest.take(end - start)[i] == chars[start + i]);
        }
        lemma_token_len_is(rest, end - start);
    }
    end
}

} // verus!
