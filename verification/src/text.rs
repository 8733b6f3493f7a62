//! Character-sequence helpers: joining tokens with a separator, splitting a
//! sequence at a separator, and an executable string comparison.
//!
//! These are the building blocks of the `--export-type=a,b,c` flag: the
//! serializer joins format names with commas and the parser splits them back.

use vstd::prelude::*;

verus! {

/// The tokens of `toks` joined into one sequence, with `sep` between
/// neighbouring tokens. The empty token list joins to the empty sequence.
pub open spec fn join_char(toks: Seq<Seq<char>>, sep: char) -> Seq<char>
    decreases toks.len(),
{
    if toks.len() == 0 {
        Seq::<char>::empty()
    } else if toks.len() == 1 {
        toks[0]
    } else {
        toks[0] + seq![sep] + join_char(toks.drop_first(), sep)
    }
}

/// Index of the first occurrence of `sep` in `s`, or `s.len()` when `s` does
/// not contain `sep`.
pub open spec fn find_sep(s: Seq<char>, sep: char) -> int
    decreases s.len(),
{
    if s.len() == 0 {
        0
    } else if s[0] == sep {
        0
    } else {
        1 + find_sep(s.drop_first(), sep)
    }
}

/// `s` split at every occurrence of `sep`, separators not kept. The result is
/// never empty: a sequence without `sep` splits into itself alone, and the
/// empty sequence splits into one empty token.
pub open spec fn split_char(s: Seq<char>, sep: char) -> Seq<Seq<char>>
    decreases s.len(),
{
    let i = find_sep(s, sep);
    if 0 <= i < s.len() {
        seq![s.subrange(0, i)] + split_char(s.subrange(i + 1, s.len() as int), sep)
    } else {
        seq![s]
    }
}

/// `find_sep` returns the index of the first separator: everything before it
/// differs from `sep`, and it points at `sep` unless it is `s.len()`.
pub proof fn lemma_find_sep_spec(s: Seq<char>, sep: char)
    ensures
        0 <= find_sep(s, sep) <= s.len(),
        forall|j: int| 0 <= j < find_sep(s, sep) ==> s[j] != sep,
        find_sep(s, sep) < s.len() ==> s[find_sep(s, sep)] == sep,
    decreases s.len(),
{
    if s.len() == 0 {
    } else if s[0] == sep {
    } else {
        lemma_find_sep_spec(s.drop_first(), sep);
        assert forall|j: int| 0 <= j < find_sep(s, sep) implies s[j] != sep by {
            if j > 0 {
                assert(s.drop_first()[j - 1] != sep);
            }
        }
    }
}

/// An index before which no separator occurs, and which either is the length
/// or holds a separator, is exactly `find_sep`.
pub proof fn lemma_find_sep_at(s: Seq<char>, sep: char, i: int)
    requires
        0 <= i <= s.len(),
        forall|j: int| 0 <= j < i ==> s[j] != sep,
        i < s.len() ==> s[i] == sep,
    ensures
        find_sep(s, sep) == i,
{
    lemma_find_sep_spec(s, sep);
    let f = find_sep(s, sep);
    if f < i {
        assert(s[f] == sep);
    }
    if f > i {
        assert(s[i] != sep);
    }
}

/// Membership in a sequence with one token put on the front.
pub proof fn lemma_contains_cons(t: Seq<char>, rest: Seq<Seq<char>>, x: Seq<char>)
    ensures
        (seq![t] + rest).contains(x) <==> (x == t || rest.contains(x)),
{
    let whole = seq![t] + rest;
    if rest.contains(x) {
        let j = choose|j: int| 0 <= j < rest.len() && rest[j] == x;
        assert(whole[j + 1] == x);
    }
    if x == t {
        assert(whole[0] == x);
    }
    if whole.contains(x) {
        let j = choose|j: int| 0 <= j < whole.len() && whole[j] == x;
        if j > 0 {
            assert(rest[j - 1] == x);
        }
    }
}

/// Splitting undoes joining: as long as no token holds the separator, the
/// tokens come back from the joined sequence exactly, in order.
pub proof fn lemma_split_join(toks: Seq<Seq<char>>, sep: char)
    requires
        toks.len() > 0,
        forall|k: int| 0 <= k < toks.len() ==> !(#[trigger] toks[k]).contains(sep),
    ensures
        split_char(join_char(toks, sep), sep) == toks,
    decreases toks.len(),
{
    let s = join_char(toks, sep);
    if toks.len() == 1 {
        assert(s == toks[0]);
        assert forall|j: int| 0 <= j < s.len() implies s[j] != sep by {
            assert(!toks[0].contains(sep));
        }
        lemma_find_sep_at(s, sep, s.len() as int);
        assert(split_char(s, sep) =~= toks);
    } else {
        let head = toks[0];
        let rest = toks.drop_first();
        let tail = join_char(rest, sep);
        assert(s == head + seq![sep] + tail);
        assert forall|j: int| 0 <= j < head.len() implies s[j] != sep by {
            assert(s[j] == head[j]);
            assert(!head.contains(sep));
        }
        assert(s[head.len() as int] == sep);
        lemma_find_sep_at(s, sep, head.len() as int);
        assert(s.subrange(0, head.len() as int) =~= head);
        assert(s.subrange(head.len() as int + 1, s.len() as int) =~= tail);
        assert forall|k: int| 0 <= k < rest.len() implies !(#[trigger] rest[k]).contains(sep) by {
            assert(rest[k] == toks[k + 1]);
        }
        lemma_split_join(rest, sep);
        assert(split_char(s, sep) =~= toks);
    }
}

/// Joining one more token on the right appends a separator and the token,
/// unless the list was empty.
pub proof fn lemma_join_push(toks: Seq<Seq<char>>, x: Seq<char>, sep: char)
    ensures
        join_char(toks.push(x), sep) == if toks.len() == 0 {
            x
        } else {
            join_char(toks, sep) + seq![sep] + x
        },
    decreases toks.len(),
{
    let whole = toks.push(x);
    if toks.len() == 0 {
        assert(whole.len() == 1);
        assert(whole[0] == x);
    } else if toks.len() == 1 {
        reveal_with_fuel(join_char, 3);
        assert(whole.len() == 2);
        assert(whole.drop_first() =~= seq![x]);
        assert(join_char(whole, sep) == toks[0] + seq![sep] + x);
    } else {
        assert(whole.drop_first() =~= toks.drop_first().push(x));
        lemma_join_push(toks.drop_first(), x, sep);
    }
}

/// Character-by-character string comparison, so that contracts can speak of
/// view equality directly.
pub fn str_eq(a: &str, b: &str) -> (r: bool)
    ensures
        r == (a@ == b@),
{
    let n = a.unicode_len();
    let m = b.unicode_len();
    if n != m {
        return false;
    }
    let mut i: usize = 0;
    while i < n
        invariant
            0 <= i <= n,
            n == a@.len(),
            n == b@.len(),
            forall|j: int| 0 <= j < i ==> a@[j] == b@[j],
        decreases n - i,
    {
        if a.get_char(i) != b.get_char(i) {
            return false;
        }
        i = i + 1;
    }
    proof {
        assert(a@ =~= b@);
    }
    true
}

} // verus!
