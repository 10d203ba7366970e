//! Text handling shared by the settings and the tool adapters.

use vstd::prelude::*;
use vstd::string::*;

verus! {

/// The pieces of `s` between the occurrences of `delim`. There is always one
/// piece more than there are delimiters, so the empty text has one empty
/// piece.
pub open spec fn split_tokens(s: Seq<char>, delim: char) -> Seq<Seq<char>>
    decreases s.len(),
{
    if s.len() == 0 {
        seq![Seq::empty()]
    } else {
        let before = split_tokens(s.drop_last(), delim);
        if s.last() == delim {
            before.push(Seq::empty())
        } else {
            before.drop_last().push(before.last().push(s.last()))
        }
    }
}

/// The tokens put together again, with `delim` between neighbours.
pub open spec fn joined(tokens: Seq<Seq<char>>, delim: char) -> Seq<char>
    decreases tokens.len(),
{
    if tokens.len() == 0 {
        Seq::empty()
    } else if tokens.len() == 1 {
        tokens[0]
    } else {
        joined(tokens.drop_last(), delim).push(delim) + tokens.last()
    }
}

/// How often `c` occurs in `s`.
pub open spec fn occurrences(s: Seq<char>, c: char) -> nat
    decreases s.len(),
{
    if s.len() == 0 {
        0
    } else {
        occurrences(s.drop_last(), c) + if s.last() == c {
            1nat
        } else {
            0nat
        }
    }
}

/// Splitting loses nothing: there is one token more than delimiters, no token
/// holds the delimiter, and joining the tokens gives the text back.
pub proof fn split_tokens_rejoin(s: Seq<char>, delim: char)
    ensures
        split_tokens(s, delim).len() == occurrences(s, delim) + 1,
        forall|i: int|
            0 <= i < split_tokens(s, delim).len() ==> !(#[trigger] split_tokens(s, delim)[i]).contains(
                delim,
            ),
        joined(split_tokens(s, delim), delim) == s,
    decreases s.len(),
{
    let tokens = split_tokens(s, delim);
    if s.len() == 0 {
        assert(tokens[0] =~= Seq::<char>::empty());
        assert(joined(tokens, delim) =~= s);
    } else {
        let head = s.drop_last();
        let before = split_tokens(head, delim);
        split_tokens_rejoin(head, delim);
        if s.last() == delim {
            assert(tokens.drop_last() =~= before);
            assert(joined(tokens, delim) =~= head.push(delim));
            assert(head.push(delim) =~= s);
        } else {
            let grown = before.last().push(s.last());
            assert forall|i: int| 0 <= i < tokens.len() implies !(#[trigger] tokens[i]).contains(
                delim,
            ) by {
                if i == tokens.len() - 1 {
                    assert(tokens[i] == grown);
                    assert(!before[before.len() - 1].contains(delim));
                    if grown.contains(delim) {
                        let k = choose|k: int| 0 <= k < grown.len() && grown[k] == delim;
                        assert(before.last()[k] == delim);
                    }
                } else {
                    assert(tokens[i] == before[i]);
                }
            }
            if before.len() == 1 {
                assert(joined(before, delim) == before[0]);
                assert(joined(tokens, delim) =~= s);
            } else {
                assert(tokens.drop_last() =~= before.drop_last());
                assert(joined(tokens, delim) =~= joined(before, delim).push(s.last()));
                assert(head.push(s.last()) =~= s);
            }
        }
    }
}

/// The views of a list of strings.
pub open spec fn texts(v: Seq<String>) -> Seq<Seq<char>> {
    Seq::new(v.len(), |i: int| v[i]@)
}

/// The characters of `s`, one by one.
pub fn chars_of(s: &str) -> (v: Vec<char>)
    ensures
        v@ == s@,
{
    let mut v: Vec<char> = Vec::new();
    for c in it: s.chars()
        invariant
            it.seq() == s@,
            v@ == s@.take(it.index() as int),
    {
        v.push(c);
        assert(v@ =~= s@.take(it.index() + 1));
    }
    assert(s@.take(s@.len() as int) =~= s@);
    v
}

/// Splits `s` at every `delim`.
pub fn split(s: &str, delim: char) -> (tokens: Vec<String>)
    ensures
        texts(tokens@) == split_tokens(s@, delim),
{
    let text = chars_of(s);
    let n = text.len();
    let mut tokens: Vec<String> = Vec::new();
    let mut start: usize = 0;
    let mut i: usize = 0;
    assert(s@.take(0) =~= Seq::<char>::empty());
    assert(texts(tokens@).push(s@.subrange(0, 0)) =~= split_tokens(s@.take(0), delim));
    while i < n
        invariant
            text@ == s@,
            n == s@.len(),
            start <= i <= n,
            texts(tokens@).push(s@.subrange(start as int, i as int)) == split_tokens(
                s@.take(i as int),
                delim,
            ),
        decreases n - i,
    {
        let c = text[i];
        let ghost before = split_tokens(s@.take(i as int), delim);
        let ghost old_tokens = tokens@;
        proof {
            assert(s@.take(i + 1).drop_last() =~= s@.take(i as int));
            assert(s@.take(i + 1).last() == c);
            assert(before.last() == s@.subrange(start as int, i as int));
            assert(before.drop_last() =~= texts(old_tokens));
        }
        if c == delim {
            let piece = s.substring_char(start, i).to_owned();
            tokens.push(piece);
            start = i + 1;
            proof {
                assert(texts(tokens@) =~= before);
                assert(s@.subrange(start as int, i + 1) =~= Seq::<char>::empty());
            }
        } else {
            proof {
                assert(s@.subrange(start as int, i + 1) =~= before.last().push(c));
            }
        }
        i = i + 1;
    }
    assert(s@.take(n as int) =~= s@);
    let rest = s.substring_char(start, n).to_owned();
    tokens.push(rest);
    assert(texts(tokens@) =~= split_tokens(s@, delim));
    tokens
}

/// Whether `item` is one of `list`.
pub fn contains_text(list: &Vec<String>, item: &String) -> (r: bool)
    ensures
        r == texts(list@).contains(item@),
{
    let mut i: usize = 0;
    while i < list.len()
        invariant
            i <= list.len(),
            forall|k: int| 0 <= k < i ==> texts(list@)[k] != item@,
        decreases list.len() - i,
    {
        if list[i] == *item {
            assert(texts(list@)[i as int] == item@);
            return true;
        }
        i = i + 1;
    }
    false
}

/// A copy of `list`.
pub fn copy_texts(list: &Vec<String>) -> (r: Vec<String>)
    ensures
        texts(r@) == texts(list@),
{
    let mut r: Vec<String> = Vec::new();
    let mut i: usize = 0;
    while i < list.len()
        invariant
            i <= list.len(),
            r.len() == i,
            forall|k: int| 0 <= k < i ==> r[k]@ == list[k]@,
        decreases list.len() - i,
    {
        r.push(list[i].clone());
        i = i + 1;
    }
    assert(texts(r@) =~= texts(list@));
    r
}

} // verus!
