use vstd::prelude::*;

use crate::validation::{is_allowed_char, valid_segment};

verus! {

/// The canonical text rendering of a path: its segments joined by `/`, with
/// no leading or trailing delimiter; the empty path renders as empty text.
pub open spec fn render_spec(p: Seq<Seq<char>>) -> Seq<char>
    decreases p.len(),
{
    if p.len() == 0 {
        Seq::<char>::empty()
    } else if p.len() == 1 {
        p[0]
    } else {
        render_spec(p.drop_last()) + seq!['/'] + p.last()
    }
}

/// The fragments of `s` between occurrences of `/`, in order, empty
/// fragments included. Text without any `/` is one fragment.
pub open spec fn split_on_slash(s: Seq<char>) -> Seq<Seq<char>>
    decreases s.len(),
{
    if s.len() == 0 {
        seq![Seq::<char>::empty()]
    } else if s.last() == '/' {
        split_on_slash(s.drop_last()).push(Seq::<char>::empty())
    } else {
        let prev = split_on_slash(s.drop_last());
        prev.update(prev.len() - 1, prev.last().push(s.last()))
    }
}

/// The segments that parsing delimited text yields: the non-empty fragments
/// between slashes, in order. Empty fragments, as produced by leading,
/// trailing or consecutive delimiters, are discarded.
pub open spec fn parse_fragments(s: Seq<char>) -> Seq<Seq<char>> {
    split_on_slash(s).filter(|f: Seq<char>| f.len() > 0)
}

/// Splitting always yields at least one fragment.
pub proof fn lemma_split_on_slash_nonempty(s: Seq<char>)
    ensures
        split_on_slash(s).len() >= 1,
    decreases s.len(),
{
    if s.len() > 0 {
        lemma_split_on_slash_nonempty(s.drop_last());
    }
}

/// Text without any `/` splits into exactly one fragment: itself.
pub proof fn lemma_split_no_slash(s: Seq<char>)
    requires
        forall|i: int| 0 <= i < s.len() ==> s[i] != '/',
    ensures
        split_on_slash(s) == seq![s],
    decreases s.len(),
{
    if s.len() == 0 {
        assert(split_on_slash(s) =~~= seq![s]);
    } else {
        lemma_split_no_slash(s.drop_last());
        assert(s.last() != '/');
        assert(s.drop_last().push(s.last()) =~= s);
        assert(split_on_slash(s) =~~= seq![s]);
    }
}

/// Appending a `/` to text closes the current fragment and opens an empty one.
pub proof fn lemma_split_append_slash(a: Seq<char>)
    ensures
        split_on_slash(a + seq!['/']) == split_on_slash(a).push(Seq::<char>::empty()),
{
    let s = a + seq!['/'];
    assert(s.len() > 0);
    assert(s.last() == '/');
    assert(s.drop_last() =~= a);
}

/// Appending slash-free text to some text extends its last fragment.
pub proof fn lemma_split_append_no_slash(a: Seq<char>, t: Seq<char>)
    requires
        forall|i: int| 0 <= i < t.len() ==> t[i] != '/',
    ensures
        split_on_slash(a + t) == split_on_slash(a).update(
            split_on_slash(a).len() - 1,
            split_on_slash(a).last() + t,
        ),
    decreases t.len(),
{
    lemma_split_on_slash_nonempty(a);
    let sa = split_on_slash(a);
    if t.len() == 0 {
        assert(a + t =~= a);
        assert(sa.last() + t =~= sa.last());
        assert(sa.update(sa.len() - 1, sa.last()) =~= sa);
    } else {
        let t0 = t.drop_last();
        assert(forall|i: int| 0 <= i < t0.len() ==> t0[i] != '/');
        lemma_split_append_no_slash(a, t0);
        let s = a + t;
        assert(s.len() > 0);
        assert(s.last() == t.last());
        assert(s.last() != '/');
        assert(s.drop_last() =~= a + t0);
        let prev = split_on_slash(a + t0);
        assert(prev == sa.update(sa.len() - 1, sa.last() + t0));
        assert(prev.len() == sa.len());
        assert(prev.last() == sa.last() + t0);
        assert(prev.last().push(t.last()) =~= sa.last() + t);
        assert(split_on_slash(s) == prev.update(prev.len() - 1, prev.last().push(s.last())));
        assert(split_on_slash(s) =~~= sa.update(sa.len() - 1, sa.last() + t));
    }
}

/// Filtering a one-fragment split keeps the fragment iff it is non-empty.
pub(crate) proof fn lemma_filter_singleton(x: Seq<char>)
    ensures
        seq![x].filter(|f: Seq<char>| f.len() > 0) == if x.len() > 0 {
            seq![x]
        } else {
            Seq::<Seq<char>>::empty()
        },
{
    reveal_with_fuel(Seq::filter, 2);
    assert(seq![x].drop_last() =~~= Seq::<Seq<char>>::empty());
    assert(seq![x].last() == x);
}

/// A valid segment is non-empty and holds no `/`.
pub proof fn lemma_valid_segment_no_slash(s: Seq<char>)
    requires
        valid_segment(s),
    ensures
        s.len() > 0,
        forall|i: int| 0 <= i < s.len() ==> s[i] != '/',
{
    assert(!is_allowed_char('/'));
    assert forall|i: int| 0 <= i < s.len() implies s[i] != '/' by {
        assert(is_allowed_char(s[i]));
    }
}

/// Round trip: parsing the rendering of a sequence of non-empty, slash-free
/// segments yields that sequence again.
pub proof fn lemma_parse_of_render(p: Seq<Seq<char>>)
    requires
        forall|i: int| 0 <= i < p.len() ==> (#[trigger] p[i]).len() > 0,
        forall|i: int, j: int| 0 <= i < p.len() && 0 <= j < p[i].len() ==> p[i][j] != '/',
    ensures
        parse_fragments(render_spec(p)) == p,
    decreases p.len(),
{
    broadcast use vstd::seq_lib::group_filter_ensures;

    let pred = |f: Seq<char>| f.len() > 0;
    if p.len() == 0 {
        assert(render_spec(p) == Seq::<char>::empty());
        assert(split_on_slash(render_spec(p)) == seq![Seq::<char>::empty()]);
        lemma_filter_singleton(Seq::<char>::empty());
        assert(parse_fragments(render_spec(p)) =~~= p);
    } else if p.len() == 1 {
        assert(render_spec(p) == p[0]);
        assert(forall|j: int| 0 <= j < p[0].len() ==> p[0][j] != '/');
        lemma_split_no_slash(p[0]);
        lemma_filter_singleton(p[0]);
        assert(parse_fragments(render_spec(p)) =~~= p);
    } else {
        let q = p.drop_last();
        let t = p.last();
        assert(forall|i: int| 0 <= i < q.len() ==> (#[trigger] q[i]).len() > 0);
        assert forall|i: int, j: int| 0 <= i < q.len() && 0 <= j < q[i].len() implies q[i][j]
            != '/' by {
            assert(q[i] == p[i]);
        }
        lemma_parse_of_render(q);
        let a = render_spec(q);
        assert(render_spec(p) == a + seq!['/'] + t);
        lemma_split_append_slash(a);
        let sa1 = split_on_slash(a).push(Seq::<char>::empty());
        assert(forall|j: int| 0 <= j < t.len() ==> t[j] != '/');
        lemma_split_append_no_slash(a + seq!['/'], t);
        assert((a + seq!['/']) + t =~= a + seq!['/'] + t);
        assert(sa1.last() == Seq::<char>::empty());
        assert(sa1.last() + t =~= t);
        let sp = split_on_slash(render_spec(p));
        assert(sp == sa1.update(sa1.len() - 1, sa1.last() + t));
        assert(sp =~~= split_on_slash(a).push(t));
        assert(split_on_slash(a).push(t) =~= split_on_slash(a) + seq![t]);
        assert(sp.filter(pred) == (split_on_slash(a) + seq![t]).filter(pred));
        Seq::<Seq<char>>::filter_distributes_over_add(split_on_slash(a), seq![t], pred);
        lemma_filter_singleton(t);
        assert(sp.filter(pred) == split_on_slash(a).filter(pred) + seq![t]);
        assert(parse_fragments(render_spec(p)) =~~= p);
    }
}

/// Round trip: rendering any well-formed path to text and re-parsing the
/// text yields the same path again.
pub proof fn lemma_render_parse_round_trip(p: Seq<Seq<char>>)
    requires
        crate::wf_path(p),
    ensures
        parse_fragments(render_spec(p)) == p,
{
    assert forall|i: int| 0 <= i < p.len() implies (#[trigger] p[i]).len() > 0 by {
        lemma_valid_segment_no_slash(p[i]);
    }
    assert forall|i: int, j: int| 0 <= i < p.len() && 0 <= j < p[i].len() implies p[i][j]
        != '/' by {
        lemma_valid_segment_no_slash(p[i]);
    }
    lemma_parse_of_render(p);
}

/// Splits `s` at each occurrence of `/` into its fragments, in order,
/// empty fragments included.
pub(crate) fn split_slash(s: &str) -> (r: Vec<String>)
    ensures
        r.deep_view() == split_on_slash(s@),
{
    let n = s.unicode_len();
    let mut r: Vec<String> = Vec::new();
    let mut start: usize = 0;
    let mut i: usize = 0;
    proof {
        assert(s@.take(0) =~= Seq::<char>::empty());
        assert(s@.subrange(0, 0) =~= Seq::<char>::empty());
        assert(r.deep_view() =~~= Seq::<Seq<char>>::empty());
        assert(r.deep_view().push(s@.subrange(0, 0)) =~~= seq![Seq::<char>::empty()]);
    }
    while i < n
        invariant
            n == s@.len(),
            start <= i <= n,
            r.deep_view().push(s@.subrange(start as int, i as int)) == split_on_slash(
                s@.take(i as int),
            ),
        decreases n - i,
    {
        let ghost pre = r.deep_view();
        let ghost cur = s@.subrange(start as int, i as int);
        let c = s.get_char(i);
        proof {
            assert(s@.take(i + 1).drop_last() =~~= s@.take(i as int));
            assert(s@.take(i + 1).last() == s@[i as int]);
        }
        if c == '/' {
            let frag = s.substring_char(start, i);
            let frag_owned = frag.to_owned();
            r.push(frag_owned);
            start = i + 1;
            proof {
                assert(r@.len() == pre.len() + 1);
                assert(r.deep_view().len() == pre.len() + 1);
                assert(r.deep_view()[pre.len() as int] == cur);
                assert(forall|j: int| 0 <= j < pre.len() ==> (#[trigger] r@[j])@ == pre[j]);
                assert(r.deep_view() =~~= pre.push(cur));
                assert(split_on_slash(s@.take(i + 1)) == split_on_slash(s@.take(i as int)).push(
                    Seq::<char>::empty(),
                ));
                assert(s@.subrange(start as int, (i + 1) as int) =~= Seq::<char>::empty());
                assert(r.deep_view().push(s@.subrange(start as int, (i + 1) as int)) =~~=
                    split_on_slash(s@.take(i + 1)));
            }
        } else {
            proof {
                let prev = split_on_slash(s@.take(i as int));
                lemma_split_on_slash_nonempty(s@.take(i as int));
                assert(prev == pre.push(cur));
                assert(prev.last() == cur);
                assert(split_on_slash(s@.take(i + 1)) == prev.update(
                    prev.len() - 1,
                    prev.last().push(s@[i as int]),
                ));
                assert(s@.subrange(start as int, (i + 1) as int) =~= cur.push(s@[i as int]));
                assert(r.deep_view().push(s@.subrange(start as int, (i + 1) as int)) =~~=
                    split_on_slash(s@.take(i + 1)));
            }
        }
        i = i + 1;
    }
    let ghost pre = r.deep_view();
    let ghost cur = s@.subrange(start as int, n as int);
    let frag = s.substring_char(start, n);
    let frag_owned = frag.to_owned();
    r.push(frag_owned);
    proof {
        assert(r@.len() == pre.len() + 1);
        assert(r.deep_view().len() == pre.len() + 1);
        assert(r.deep_view()[pre.len() as int] == cur);
        assert(forall|j: int| 0 <= j < pre.len() ==> (#[trigger] r@[j])@ == pre[j]);
        assert(r.deep_view() =~~= pre.push(cur));
        assert(s@.take(n as int) =~~= s@);
    }
    r
}

} // verus!
