//! Cutting text into pieces and lines.
use vstd::prelude::*;

use crate::text::{chars_of, text_between, texts};

verus! {

/// The pieces of `s` between the characters of `seps`, in order. There is one
/// piece more than there are separators, so an empty text has one empty piece.
pub open spec fn pieces(s: Seq<char>, seps: Seq<char>) -> Seq<Seq<char>>
    decreases s.len(),
{
    if s.len() == 0 {
        seq![Seq::<char>::empty()]
    } else {
        let before = pieces(s.drop_last(), seps);
        if seps.contains(s.last()) {
            before.push(Seq::<char>::empty())
        } else {
            before.update(before.len() - 1, before.last().push(s.last()))
        }
    }
}

/// A text without any separator is its own single piece.
pub proof fn lemma_pieces_none(s: Seq<char>, seps: Seq<char>)
    requires
        forall|i: int| 0 <= i < s.len() ==> !seps.contains(#[trigger] s[i]),
    ensures
        pieces(s, seps) == seq![s],
    decreases s.len(),
{
    if s.len() > 0 {
        let t = s.drop_last();
        assert forall|i: int| 0 <= i < t.len() implies !seps.contains(#[trigger] t[i]) by {
            assert(t[i] == s[i]);
        }
        lemma_pieces_none(t, seps);
        assert(seq![t].update(0, t.push(s.last())) =~= seq![s]) by {
            assert(t.push(s.last()) =~= s);
        }
    } else {
        assert(s =~= Seq::<char>::empty());
    }
}

/// The pieces of a text with one more separator and a last piece behind it.
pub proof fn lemma_pieces_append(a: Seq<char>, c: char, b: Seq<char>, seps: Seq<char>)
    requires
        seps.contains(c),
        forall|i: int| 0 <= i < b.len() ==> !seps.contains(#[trigger] b[i]),
    ensures
        pieces(a + seq![c] + b, seps) == pieces(a, seps).push(b),
    decreases b.len(),
{
    let s = a + seq![c] + b;
    if b.len() == 0 {
        assert(s.drop_last() =~= a);
        assert(s.last() == c);
        assert(b =~= Seq::<char>::empty());
    } else {
        let t = b.drop_last();
        assert forall|i: int| 0 <= i < t.len() implies !seps.contains(#[trigger] t[i]) by {
            assert(t[i] == b[i]);
        }
        lemma_pieces_append(a, c, t, seps);
        assert(s.drop_last() =~= a + seq![c] + t);
        assert(s.last() == b[b.len() - 1]);
        assert(t.push(b.last()) =~= b);
        let before = pieces(a, seps).push(t);
        assert(before.update(before.len() - 1, before.last().push(s.last())) =~= pieces(
            a,
            seps,
        ).push(b));
    }
}

fn is_one_of(seps: &Vec<char>, c: char) -> (r: bool)
    ensures
        r == seps@.contains(c),
{
    let mut i: usize = 0;
    while i < seps.len()
        invariant
            i <= seps@.len(),
            forall|j: int| 0 <= j < i ==> seps@[j] != c,
        decreases seps@.len() - i,
    {
        if seps[i] == c {
            return true;
        }
        i = i + 1;
    }
    false
}

/// Cuts `s` at every character of `seps`.
pub fn split_any(s: &str, seps: &Vec<char>) -> (r: Vec<String>)
    ensures
        texts(r@) == pieces(s@, seps@),
        r@.len() > 0,
{
    let x = chars_of(s);
    let n: usize = x.len();
    let mut done: Vec<String> = Vec::new();
    let mut start: usize = 0;
    let mut i: usize = 0;
    assert(s@.take(0) =~= Seq::<char>::empty());
    assert(texts(done@).push(x@.subrange(0, 0)) =~= seq![Seq::<char>::empty()]);
    while i < n
        invariant
            start <= i <= n,
            n == x@.len(),
            x@ == s@,
            pieces(s@.take(i as int), seps@) == texts(done@).push(
                x@.subrange(start as int, i as int),
            ),
        decreases n - i,
    {
        let ghost before = texts(done@);
        assert(s@.take(i + 1).drop_last() =~= s@.take(i as int));
        assert(s@.take(i + 1).last() == s@[i as int]);
        if is_one_of(seps, x[i]) {
            let piece = text_between(&x, start, i);
            done.push(piece);
            assert(texts(done@) =~= before.push(x@.subrange(start as int, i as int)));
            start = i + 1;
            assert(x@.subrange(start as int, i + 1) =~= Seq::<char>::empty());
        } else {
            let ghost cur = x@.subrange(start as int, i as int);
            assert(cur.push(x@[i as int]) =~= x@.subrange(start as int, i + 1));
            assert(before.push(cur).update(before.len() as int, cur.push(x@[i as int]))
                =~= before.push(x@.subrange(start as int, i + 1)));
        }
        i = i + 1;
    }
    let ghost before = texts(done@);
    let piece = text_between(&x, start, n);
    done.push(piece);
    assert(texts(done@) =~= before.push(x@.subrange(start as int, n as int)));
    assert(s@.take(n as int) =~= s@);
    done
}

/// Cuts `s` at every `c`.
pub fn split_char(s: &str, c: char) -> (r: Vec<String>)
    ensures
        texts(r@) == pieces(s@, seq![c]),
        r@.len() > 0,
{
    let mut seps: Vec<char> = Vec::new();
    seps.push(c);
    assert(seps@ =~= seq![c]);
    split_any(s, &seps)
}

/// A line that ended in a line feed, without a carriage return before it.
pub open spec fn without_return(s: Seq<char>) -> Seq<char> {
    if s.len() > 0 && s.last() == '\r' {
        s.drop_last()
    } else {
        s
    }
}

/// The lines of a text. A line ends in a line feed, or in a carriage return and
/// a line feed, or with the text; an empty rest behind the last line feed is no
/// line.
pub open spec fn lines_of(s: Seq<char>) -> Seq<Seq<char>> {
    let p = pieces(s, seq!['\n']);
    let ended = p.drop_last().map_values(|l: Seq<char>| without_return(l));
    if p.last().len() == 0 {
        ended
    } else {
        ended.push(p.last())
    }
}

fn drop_return(s: &str) -> (r: String)
    ensures
        r@ == without_return(s@),
{
    let x = chars_of(s);
    let n: usize = x.len();
    if n > 0 && x[n - 1] == '\r' {
        let r = text_between(&x, 0, n - 1);
        assert(s@.subrange(0, n - 1) =~= s@.drop_last());
        r
    } else {
        crate::text::copy(s)
    }
}

/// The lines of `s`.
pub fn lines(s: &str) -> (r: Vec<String>)
    ensures
        texts(r@) == lines_of(s@),
{
    let p = split_char(s, '\n');
    let n: usize = p.len();
    let ghost all = pieces(s@, seq!['\n']);
    let ghost ended = all.drop_last().map_values(|l: Seq<char>| without_return(l));
    assert(all.len() == n);
    let mut r: Vec<String> = Vec::new();
    let mut i: usize = 0;
    assert(texts(r@) =~= ended.take(0));
    while i < n - 1
        invariant
            n == p@.len(),
            n > 0,
            i <= n - 1,
            texts(p@) == all,
            ended == all.drop_last().map_values(|l: Seq<char>| without_return(l)),
            texts(r@) == ended.take(i as int),
        decreases n - i,
    {
        let ghost before = texts(r@);
        assert(p@[i as int]@ == texts(p@)[i as int]);
        r.push(drop_return(p[i].as_str()));
        assert(texts(r@) =~= before.push(ended[i as int]));
        assert(ended.take(i as int).push(ended[i as int]) =~= ended.take(i + 1));
        i = i + 1;
    }
    assert(ended.take(i as int) =~= ended);
    assert(p@[n - 1]@ == texts(p@)[n - 1]);
    if !p[n - 1].as_str().is_empty() {
        let ghost before = texts(r@);
        r.push(crate::text::copy(p[n - 1].as_str()));
        assert(texts(r@) =~= before.push(all.last()));
    }
    r
}

/// The lines of a text are the first line and the lines of the rest, a carriage return
/// before the line feed taken off.
pub proof fn law_first_line_is_cut_off(a: Seq<char>, b: Seq<char>)
    requires
        forall|i: int| 0 <= i < a.len() ==> #[trigger] a[i] != '\n',
    ensures
        lines_of(a + seq!['\n'] + b) == seq![without_return(a)] + lines_of(b),
        a.len() > 0 ==> lines_of(a) == seq![a],
        lines_of(Seq::<char>::empty()) == Seq::<Seq<char>>::empty(),
        without_return(a.push('\r')) == a,
        a.len() > 0 && a[a.len() - 1] != '\r' ==> without_return(a) == a,
{
    let nl = seq!['\n'];
    assert(forall|c: char| nl.contains(c) ==> c == '\n');
    assert(nl[0] == '\n');
    assert(nl.contains('\n'));
    let s = a + nl + b;
    lemma_pieces_first(a, b, '\n');
    let p = pieces(s, nl);
    let q = pieces(b, nl);
    lemma_pieces_some(b, nl);
    assert(p =~= seq![a] + q);
    assert(p.last() == q.last());
    let f = |l: Seq<char>| without_return(l);
    assert(p.drop_last().map_values(f) =~= seq![without_return(a)] + q.drop_last().map_values(f));
    assert(lines_of(s) =~= seq![without_return(a)] + lines_of(b));
    lemma_pieces_none(a, nl);
    assert(a.push('\r').drop_last() =~= a);
    if a.len() > 0 {
        assert(pieces(a, nl).drop_last().map_values(f) =~= Seq::<Seq<char>>::empty());
        assert(lines_of(a) =~= seq![a]);
    }
    let none = Seq::<char>::empty();
    assert(pieces(none, nl).drop_last().map_values(f) =~= Seq::<Seq<char>>::empty());
}

proof fn lemma_pieces_some(s: Seq<char>, seps: Seq<char>)
    ensures
        pieces(s, seps).len() > 0,
    decreases s.len(),
{
    if s.len() > 0 {
        lemma_pieces_some(s.drop_last(), seps);
    }
}

proof fn lemma_pieces_first(a: Seq<char>, b: Seq<char>, c: char)
    requires
        forall|i: int| 0 <= i < a.len() ==> #[trigger] a[i] != c,
    ensures
        pieces(a + seq![c] + b, seq![c]) == seq![a] + pieces(b, seq![c]),
    decreases b.len(),
{
    let seps = seq![c];
    let s = a + seps + b;
    assert(seps[0] == c);
    assert(seps.contains(c));
    assert(forall|x: char| seps.contains(x) ==> x == c);
    if b.len() == 0 {
        assert(s.drop_last() =~= a);
        assert(s.last() == c);
        lemma_pieces_none(a, seps);
        assert(seq![a].push(Seq::<char>::empty()) =~= seq![a] + seq![Seq::<char>::empty()]);
    } else {
        let rest = b.drop_last();
        assert(s.drop_last() =~= a + seps + rest);
        assert(s.last() == b.last());
        lemma_pieces_first(a, rest, c);
        lemma_pieces_some(rest, seps);
        let before = pieces(rest, seps);
        let whole = seq![a] + before;
        assert(whole.last() == before.last());
        if seps.contains(b.last()) {
            assert(whole.push(Seq::<char>::empty()) =~= seq![a] + before.push(
                Seq::<char>::empty(),
            ));
        } else {
            let more = before.last().push(b.last());
            assert(whole.update(whole.len() - 1, more) =~= seq![a] + before.update(
                before.len() - 1,
                more,
            ));
        }
    }
}

/// Parts without the separator, joined with it, are cut into these parts again.
pub proof fn law_cutting_undoes_joining(a: Seq<char>, c: char, b: Seq<char>)
    requires
        forall|i: int| 0 <= i < a.len() ==> #[trigger] a[i] != c,
    ensures
        pieces(a + seq![c] + b, seq![c]) == seq![a] + pieces(b, seq![c]),
        pieces(a, seq![c]) == seq![a],
{
    lemma_pieces_first(a, b, c);
    assert(forall|x: char| seq![c].contains(x) ==> x == c);
    lemma_pieces_none(a, seq![c]);
}

} // verus!
