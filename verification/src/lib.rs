pub mod error;
pub mod text;
pub mod validation;

use vstd::prelude::*;

use crate::error::InvalidS3PathComponent;
use crate::text::{parse_fragments, render_spec, split_on_slash};
use crate::validation::{reports, valid_segment, validate_component};

verus! {

/// A borrowed, read-only S3 storage path: a view over a slice of validated
/// segments that somebody else owns. Producing one never copies segment data.
#[derive(Debug, Clone, Copy)]
pub struct S3Path<'i> {
    segments: &'i [String],
}

/// An owned, growable S3 storage path: a sequence of validated segments.
#[derive(Debug)]
pub struct S3PathBuf {
    components: Vec<String>,
}

impl<'i> View for S3Path<'i> {
    type V = Seq<Seq<char>>;

    closed spec fn view(&self) -> Seq<Seq<char>> {
        self.segments.deep_view()
    }
}

impl View for S3PathBuf {
    type V = Seq<Seq<char>>;

    closed spec fn view(&self) -> Seq<Seq<char>> {
        self.components.deep_view()
    }
}

/// Every segment of the path satisfies the component rules. Constructors
/// establish this and mutations preserve it.
pub open spec fn wf_path(p: Seq<Seq<char>>) -> bool {
    forall|i: int| 0 <= i < p.len() ==> valid_segment(#[trigger] p[i])
}

impl<'i> S3Path<'i> {
    /// Every segment of this path satisfies the component rules.
    pub open spec fn wf(self) -> bool {
        wf_path(self@)
    }

    /// Creates a new `S3Path` borrowing the given slice of `components`.
    ///
    /// Succeeds iff every component is a valid segment; on failure reports
    /// the first invalid component and no view is produced.
    pub fn new(components: &'i [String]) -> (r: Result<S3Path<'i>, InvalidS3PathComponent>)
        ensures
            r is Ok <==> wf_path(components.deep_view()),
            r matches Ok(p) ==> p@ == components.deep_view() && p.wf(),
            r matches Err(e) ==> exists|k: int|
                {
                    &&& 0 <= k < components.deep_view().len()
                    &&& !valid_segment(#[trigger] components.deep_view()[k])
                    &&& forall|j: int|
                        0 <= j < k ==> valid_segment(#[trigger] components.deep_view()[j])
                    &&& reports(components.deep_view()[k], e)
                },
    {
        let ghost dv = components.deep_view();
        let n = components.len();
        let mut i: usize = 0;
        while i < n
            invariant
                n == components@.len(),
                dv == components.deep_view(),
                i <= n,
                forall|j: int| 0 <= j < i ==> valid_segment(#[trigger] dv[j]),
            decreases n - i,
        {
            let c: &String = vstd::slice::slice_index_get(components, i);
            match validate_component(c.as_str()) {
                Ok(()) => {},
                Err(e) => {
                    assert(dv[i as int] == c@);
                    return Err(e);
                },
            }
            i = i + 1;
        }
        let p = S3Path { segments: components };
        assert(p@ =~= dv);
        Ok(p)
    }

    /// Returns true if this path has no components.
    pub fn is_empty(&self) -> (r: bool)
        ensures
            r == (self@.len() == 0),
    {
        self.segments.len() == 0
    }

    /// Returns the number of components in this path.
    pub fn len(&self) -> (r: usize)
        ensures
            r == self@.len(),
    {
        self.segments.len()
    }

    /// Returns the component at the given index, or None if the index is out
    /// of bounds.
    pub fn get(&self, index: usize) -> (r: Option<&'i str>)
        ensures
            index < self@.len() ==> (r matches Some(s) && s@ == self@[index as int]),
            index >= self@.len() ==> r is None,
    {
        if index < self.segments.len() {
            Some(vstd::slice::slice_index_get(self.segments, index).as_str())
        } else {
            None
        }
    }

    /// Returns the last component of this path, or None if the path is empty.
    pub fn last(&self) -> (r: Option<&'i str>)
        ensures
            self@.len() == 0 ==> r is None,
            self@.len() > 0 ==> (r matches Some(s) && s@ == self@.last()),
    {
        if self.segments.len() > 0 {
            Some(vstd::slice::slice_index_get(self.segments, self.segments.len() - 1).as_str())
        } else {
            None
        }
    }

    /// Returns the components of this path in order, borrowing each from the
    /// path's own storage.
    pub fn components(&self) -> (r: Vec<&'i str>)
        ensures
            r.deep_view() == self@,
    {
        let n = self.segments.len();
        let mut r: Vec<&'i str> = Vec::new();
        let mut i: usize = 0;
        while i < n
            invariant
                n == self.segments@.len(),
                i <= n,
                r.deep_view() =~= self@.take(i as int),
            decreases n - i,
        {
            let ghost prevdv = r.deep_view();
            let s: &'i str = vstd::slice::slice_index_get(self.segments, i).as_str();
            r.push(s);
            proof {
                assert(r@.len() == prevdv.len() + 1);
                assert(r.deep_view().len() == prevdv.len() + 1);
                assert(r@[i as int] == s);
                assert(r.deep_view()[i as int] == s@);
                assert(s@ == self.segments@[i as int]@);
                assert(self@[i as int] == self.segments@[i as int]@);
                assert(forall|j: int| 0 <= j < i ==> (#[trigger] r@[j])@ == prevdv[j]);
            }
            assert(r.deep_view() =~~= self@.take(i + 1));
            i = i + 1;
        }
        assert(r.deep_view() =~= self@);
        r
    }

    /// Returns a view over all but the last component of this path, or None
    /// if the path is empty. A single-component path has the empty path as
    /// its parent; only the empty path has none.
    pub fn parent(&self) -> (r: Option<S3Path<'i>>)
        ensures
            self@.len() == 0 <==> r is None,
            r matches Some(p) ==> p@ == self@.drop_last(),
    {
        if self.segments.len() == 0 {
            None
        } else {
            let p = S3Path {
                segments: vstd::slice::slice_subrange(self.segments, 0, self.segments.len() - 1),
            };
            assert(p@ =~= self@.drop_last());
            Some(p)
        }
    }

    /// Copies every component into a new, independently owned `S3PathBuf`.
    pub fn to_owned(&self) -> (r: S3PathBuf)
        ensures
            r@ == self@,
    {
        let n = self.segments.len();
        let mut components: Vec<String> = Vec::new();
        let mut i: usize = 0;
        while i < n
            invariant
                n == self.segments@.len(),
                i <= n,
                components.deep_view() =~= self@.take(i as int),
            decreases n - i,
        {
            let ghost prevdv = components.deep_view();
            let s: String = vstd::slice::slice_index_get(self.segments, i).clone();
            components.push(s);
            proof {
                assert(components@.len() == prevdv.len() + 1);
                assert(components.deep_view().len() == prevdv.len() + 1);
                assert(components@[i as int] == s);
                assert(components.deep_view()[i as int] == s@);
                assert(s@ == self.segments@[i as int]@);
                assert(self@[i as int] == self.segments@[i as int]@);
                assert(forall|j: int| 0 <= j < i ==> (#[trigger] components@[j])@ == prevdv[j]);
            }
            assert(components.deep_view() =~~= self@.take(i + 1));
            i = i + 1;
        }
        let r = S3PathBuf { components };
        assert(r@ =~= self@);
        r
    }

    /// Renders this path as text: its segments joined by `/`, the empty
    /// path rendering as the empty string.
    pub fn render(&self) -> (r: String)
        ensures
            r@ == render_spec(self@),
    {
        let n = self.segments.len();
        let mut r = String::new();
        let mut i: usize = 0;
        while i < n
            invariant
                n == self.segments@.len(),
                i <= n,
                r@ == render_spec(self@.take(i as int)),
            decreases n - i,
        {
            let ghost prev = r@;
            if i > 0 {
                r.append("/");
            }
            r.append(vstd::slice::slice_index_get(self.segments, i).as_str());
            proof {
                reveal_strlit("/");
                assert(self@[i as int] == self.segments@[i as int]@);
                assert(self@.take(i + 1).drop_last() =~~= self@.take(i as int));
                assert(self@.take(i + 1).last() == self@[i as int]);
                if i == 0 {
                    assert(r@ =~= self@[0]);
                    assert(render_spec(self@.take(1)) == self@.take(1)[0]);
                } else {
                    assert(r@ =~= prev + seq!['/'] + self@[i as int]);
                    assert(render_spec(self@.take(i + 1)) == render_spec(self@.take(i as int))
                        + seq!['/'] + self@[i as int]);
                }
            }
            i = i + 1;
        }
        proof {
            assert(self@.take(n as int) =~~= self@);
        }
        r
    }

    /// Converts this S3 path to a `std::path::PathBuf` whose component list
    /// equals this path's segments exactly: one native component per
    /// segment, in order, nothing added, dropped, split or normalized. Safe
    /// because every segment is separator-free and traversal-free by
    /// construction.
    pub fn to_std_path_buf(&self) -> (r: std::path::PathBuf)
        ensures
            self.wf() ==> std_path_segments(r) == self@,
    {
        let n = self.segments.len();
        let mut path = std_path_buf_new();
        let mut i: usize = 0;
        proof {
            assert(self@.take(0) =~~= Seq::<Seq<char>>::empty());
        }
        while i < n
            invariant
                n == self.segments@.len(),
                i <= n,
                self.wf() ==> std_path_segments(path) == self@.take(i as int),
            decreases n - i,
        {
            std_path_buf_push(&mut path, vstd::slice::slice_index_get(self.segments, i).as_str());
            proof {
                assert(self.segments@[i as int]@ == self@[i as int]);
                if self.wf() {
                    assert(valid_segment(self@[i as int]));
                    assert(self@.take(i + 1) =~= self@.take(i as int).push(self@[i as int]));
                }
            }
            i = i + 1;
        }
        proof {
            assert(self@.take(n as int) =~~= self@);
        }
        path
    }

    /// Converts to an owned `S3PathBuf` and appends `component` to it after
    /// validating it. Never mutates this view or its source.
    pub fn join(&self, component: &str) -> (r: Result<S3PathBuf, InvalidS3PathComponent>)
        ensures
            r is Ok <==> valid_segment(component@),
            r matches Ok(p) ==> p@ == self@.push(component@),
            r matches Err(e) ==> reports(component@, e),
    {
        let mut path = self.to_owned();
        match path.push(component) {
            Ok(()) => Ok(path),
            Err(e) => Err(e),
        }
    }
}

impl S3PathBuf {
    /// Every segment of this path satisfies the component rules.
    pub open spec fn wf(self) -> bool {
        wf_path(self@)
    }

    /// Creates an empty S3 path. Call `join` or `push` to extend it with
    /// additional path segments.
    pub fn new() -> (r: Self)
        ensures
            r@ == Seq::<Seq<char>>::empty(),
            r.wf(),
    {
        let r = S3PathBuf { components: Vec::new() };
        assert(r@ =~= Seq::<Seq<char>>::empty());
        r
    }

    /// Validates `component` and appends it to the path.
    ///
    /// Succeeds iff `component` is a valid segment; on failure the path is
    /// left unchanged and the error names the rule the component broke.
    pub fn push(&mut self, component: &str) -> (r: Result<(), InvalidS3PathComponent>)
        ensures
            r is Ok <==> valid_segment(component@),
            r is Ok ==> final(self)@ == old(self)@.push(component@),
            r is Err ==> final(self)@ == old(self)@,
            r matches Err(e) ==> reports(component@, e),
            old(self).wf() ==> final(self).wf(),
    {
        match validate_component(component) {
            Ok(()) => {
                self.components.push(component.to_owned());
                assert(self@ =~= old(self)@.push(component@));
                Ok(())
            },
            Err(e) => Err(e),
        }
    }

    /// Validates and appends every component in `components`, in order.
    ///
    /// Succeeds iff all components are valid segments; fails fast on the
    /// first invalid one, and no partially built path is returned.
    pub fn try_from(components: &[&str]) -> (r: Result<Self, InvalidS3PathComponent>)
        ensures
            r is Ok <==> wf_path(components.deep_view()),
            r matches Ok(p) ==> p@ == components.deep_view() && p.wf(),
            r matches Err(e) ==> exists|k: int|
                {
                    &&& 0 <= k < components.deep_view().len()
                    &&& !valid_segment(#[trigger] components.deep_view()[k])
                    &&& forall|j: int|
                        0 <= j < k ==> valid_segment(#[trigger] components.deep_view()[j])
                    &&& reports(components.deep_view()[k], e)
                },
    {
        let ghost dv = components.deep_view();
        let n = components.len();
        let mut path = S3PathBuf::new();
        let mut i: usize = 0;
        while i < n
            invariant
                n == components@.len(),
                dv == components.deep_view(),
                i <= n,
                path@ =~= dv.take(i as int),
                forall|j: int| 0 <= j < i ==> valid_segment(#[trigger] dv[j]),
            decreases n - i,
        {
            let c: &&str = vstd::slice::slice_index_get(components, i);
            match path.push(*c) {
                Ok(()) => {},
                Err(e) => {
                    assert(dv[i as int] == (*c)@);
                    return Err(e);
                },
            }
            assert(path@ =~= dv.take(i + 1 as int));
            i = i + 1;
        }
        assert(path@ =~= dv);
        Ok(path)
    }

    /// Splits `string` at each occurrence of `/`, silently discarding the
    /// empty fragments produced by leading, trailing or consecutive slashes,
    /// then validates and appends the remaining fragments in order.
    ///
    /// Succeeds iff every non-empty fragment is a valid segment; fails fast
    /// on the first invalid fragment.
    pub fn try_from_str(string: &str) -> (r: Result<Self, InvalidS3PathComponent>)
        ensures
            r is Ok <==> wf_path(parse_fragments(string@)),
            r matches Ok(p) ==> p@ == parse_fragments(string@) && p.wf(),
            r matches Err(e) ==> exists|k: int|
                {
                    &&& 0 <= k < parse_fragments(string@).len()
                    &&& !valid_segment(#[trigger] parse_fragments(string@)[k])
                    &&& forall|j: int|
                        0 <= j < k ==> valid_segment(#[trigger] parse_fragments(string@)[j])
                    &&& reports(parse_fragments(string@)[k], e)
                },
    {
        broadcast use vstd::seq_lib::group_filter_ensures;

        let ghost pred = |f: Seq<char>| f.len() > 0;
        let ghost sp = split_on_slash(string@);
        let ghost pf = parse_fragments(string@);
        let frags = crate::text::split_slash(string);
        let n = frags.len();
        let mut path = S3PathBuf::new();
        let mut i: usize = 0;
        proof {
            assert(sp.take(0) =~~= Seq::<Seq<char>>::empty());
            reveal_with_fuel(Seq::filter, 1);
            assert(path@ =~~= sp.take(0).filter(pred));
        }
        while i < n
            invariant
                n == frags@.len(),
                frags.deep_view() == sp,
                sp == split_on_slash(string@),
                pf == parse_fragments(string@),
                pred == (|f: Seq<char>| f.len() > 0),
                i <= n,
                path@ == sp.take(i as int).filter(pred),
                path.wf(),
            decreases n - i,
        {
            broadcast use vstd::seq_lib::group_filter_ensures;

            let f: &String = vstd::slice::slice_index_get(frags.as_slice(), i);
            let ghost spi = sp[i as int];
            proof {
                assert(f@ == frags.deep_view()[i as int]);
                assert(f@ == spi);
                assert(sp.take(i + 1) =~= sp.take(i as int) + seq![spi]);
                Seq::<Seq<char>>::filter_distributes_over_add(sp.take(i as int), seq![spi], pred);
                crate::text::lemma_filter_singleton(spi);
            }
            if !f.as_str().is_empty() {
                let ghost prevlen = path@.len();
                match path.push(f.as_str()) {
                    Ok(()) => {},
                    Err(e) => {
                        proof {
                            assert(sp =~= sp.take(i as int) + sp.skip(i as int));
                            Seq::<Seq<char>>::filter_distributes_over_add(
                                sp.take(i as int),
                                sp.skip(i as int),
                                pred,
                            );
                            assert(sp.skip(i as int) =~= seq![spi] + sp.skip(i + 1));
                            Seq::<Seq<char>>::filter_distributes_over_add(
                                seq![spi],
                                sp.skip(i + 1),
                                pred,
                            );
                            let ghost k = prevlen as int;
                            assert(pf == sp.take(i as int).filter(pred) + (seq![spi]
                                + sp.skip(i + 1).filter(pred)));
                            assert(pf[k] == spi);
                            assert(!valid_segment(pf[k]));
                            assert(forall|j: int|
                                0 <= j < k ==> valid_segment(#[trigger] pf[j]));
                            assert(reports(pf[k], e));
                        }
                        return Err(e);
                    },
                }
                assert(path@ =~= sp.take(i + 1).filter(pred));
            } else {
                assert(path@ =~= sp.take(i + 1).filter(pred));
            }
            i = i + 1;
        }
        proof {
            assert(sp.take(n as int) =~= sp);
        }
        Ok(path)
    }

    /// Renders this path as text: its segments joined by `/`, the empty
    /// path rendering as the empty string.
    pub fn render(&self) -> (r: String)
        ensures
            r@ == render_spec(self@),
    {
        self.as_path().render()
    }

    /// Validates `component` and returns a new path equal to this one plus
    /// the new component; this path itself is left untouched.
    pub fn join(&self, component: &str) -> (r: Result<Self, InvalidS3PathComponent>)
        ensures
            r is Ok <==> valid_segment(component@),
            r matches Ok(p) ==> p@ == self@.push(component@),
            r matches Err(e) ==> reports(component@, e),
    {
        self.as_path().join(component)
    }

    /// Produces a zero-copy borrowed view aliasing this path's segments.
    pub fn as_path(&self) -> (r: S3Path<'_>)
        ensures
            r@ == self@,
    {
        let r = S3Path { segments: self.components.as_slice() };
        assert(r@ =~= self@);
        r
    }

    /// Returns true if this path has no components.
    pub fn is_empty(&self) -> (r: bool)
        ensures
            r == (self@.len() == 0),
    {
        self.as_path().is_empty()
    }

    /// Returns the number of components in this path.
    pub fn len(&self) -> (r: usize)
        ensures
            r == self@.len(),
    {
        self.as_path().len()
    }

    /// Returns the component at the given index, or None if the index is out
    /// of bounds.
    pub fn get(&self, index: usize) -> (r: Option<&str>)
        ensures
            index < self@.len() ==> (r matches Some(s) && s@ == self@[index as int]),
            index >= self@.len() ==> r is None,
    {
        self.as_path().get(index)
    }

    /// Returns the last component of this path, or None if the path is empty.
    pub fn last(&self) -> (r: Option<&str>)
        ensures
            self@.len() == 0 ==> r is None,
            self@.len() > 0 ==> (r matches Some(s) && s@ == self@.last()),
    {
        self.as_path().last()
    }

    /// Returns the components of this path in order, borrowing each from the
    /// path's own storage.
    pub fn components(&self) -> (r: Vec<&str>)
        ensures
            r.deep_view() == self@,
    {
        self.as_path().components()
    }

    /// Returns a view over all but the last component of this path, or None
    /// if the path is empty. A single-component path has the empty path as
    /// its parent; only the empty path has none.
    pub fn parent(&self) -> (r: Option<S3Path<'_>>)
        ensures
            self@.len() == 0 <==> r is None,
            r matches Some(p) ==> p@ == self@.drop_last(),
    {
        self.as_path().parent()
    }

    /// Converts this S3 path to a `std::path::PathBuf` whose component list
    /// equals this path's segments exactly: one native component per
    /// segment, in order, nothing added, dropped, split or normalized.
    pub fn to_std_path_buf(&self) -> (r: std::path::PathBuf)
        ensures
            self.wf() ==> std_path_segments(r) == self@,
    {
        self.as_path().to_std_path_buf()
    }

    /// Removes and returns the last component, or None on an empty path.
    pub fn pop(&mut self) -> (r: Option<String>)
        ensures
            old(self)@.len() == 0 ==> (r is None && final(self)@ == old(self)@),
            old(self)@.len() > 0 ==> (r matches Some(s) && s@ == old(self)@.last()
                && final(self)@ == old(self)@.drop_last()),
            old(self).wf() ==> final(self).wf(),
    {
        let r = self.components.pop();
        match r {
            Some(s) => {
                assert(self@ =~= old(self)@.drop_last());
                Some(s)
            },
            None => None,
        }
    }
}

#[verifier::external_type_specification]
#[verifier::external_body]
pub struct ExPathBuf(std::path::PathBuf);

pub uninterp spec fn std_path_segments(p: std::path::PathBuf) -> Seq<Seq<char>>;

/// Relies on `std::path::PathBuf::new`: creates an empty host path, one
/// holding no components.
#[verifier::external_body]
fn std_path_buf_new() -> (r: std::path::PathBuf)
    ensures
        std_path_segments(r) == Seq::<Seq<char>>::empty(),
{
    std::path::PathBuf::new()
}

/// Relies on `std::path::PathBuf::push`: pushing a relative, separator-free,
/// non-traversal segment extends the host path by exactly that one
/// component. (On other strings `push` may replace or split the path, so
/// nothing is claimed of them; every stored segment is valid by
/// construction.)
#[verifier::external_body]
fn std_path_buf_push(path: &mut std::path::PathBuf, segment: &str)
    ensures
        valid_segment(segment@) ==> std_path_segments(*final(path)) == std_path_segments(
            *old(path),
        ).push(segment@),
{
    path.push(segment);
}

/// Owned-borrowed equivalence: for any owned buffer, taking its borrowed
/// view with `as_path` and copying that back with `to_owned` yields a buffer
/// equal to the original. The hypotheses are exactly what those two
/// functions ensure of their results, so the law follows by transitivity of
/// view equality.
pub proof fn lemma_as_path_to_owned_round_trip(
    original: S3PathBuf,
    borrowed: S3Path,
    reowned: S3PathBuf,
)
    requires
        borrowed@ == original@,
        reowned@ == borrowed@,
    ensures
        reowned@ == original@,
{
}

/// Compares two segment slices for segment-by-segment string equality.
fn segments_eq(a: &[String], b: &[String]) -> (r: bool)
    ensures
        r == (a.deep_view() == b.deep_view()),
{
    let n = a.len();
    if n != b.len() {
        assert(a.deep_view().len() != b.deep_view().len());
        return false;
    }
    let mut i: usize = 0;
    while i < n
        invariant
            n == a@.len(),
            n == b@.len(),
            i <= n,
            forall|j: int| 0 <= j < i ==> a.deep_view()[j] == b.deep_view()[j],
        decreases n - i,
    {
        let x: &String = vstd::slice::slice_index_get(a, i);
        let y: &String = vstd::slice::slice_index_get(b, i);
        if !x.eq(y) {
            assert(a.deep_view()[i as int] != b.deep_view()[i as int]);
            return false;
        }
        assert(a.deep_view()[i as int] == b.deep_view()[i as int]);
        i = i + 1;
    }
    assert(a.deep_view() =~~= b.deep_view());
    true
}

impl<'i> PartialEq for S3Path<'i> {
    /// Two paths are equal iff they have the same number of segments and
    /// corresponding segments are equal strings.
    fn eq(&self, other: &S3Path<'i>) -> (r: bool) {
        segments_eq(self.segments, other.segments)
    }
}

impl<'i> vstd::std_specs::cmp::PartialEqSpecImpl for S3Path<'i> {
    open spec fn obeys_eq_spec() -> bool {
        true
    }

    open spec fn eq_spec(&self, other: &S3Path<'i>) -> bool {
        self@ == other@
    }
}

impl PartialEq for S3PathBuf {
    /// Two paths are equal iff they have the same number of segments and
    /// corresponding segments are equal strings.
    fn eq(&self, other: &S3PathBuf) -> (r: bool) {
        segments_eq(self.components.as_slice(), other.components.as_slice())
    }
}

impl vstd::std_specs::cmp::PartialEqSpecImpl for S3PathBuf {
    open spec fn obeys_eq_spec() -> bool {
        true
    }

    open spec fn eq_spec(&self, other: &S3PathBuf) -> bool {
        self@ == other@
    }
}

impl<'i> PartialEq<S3Path<'i>> for S3PathBuf {
    /// Equality between the two representations is structural as well.
    fn eq(&self, other: &S3Path<'i>) -> (r: bool) {
        segments_eq(self.components.as_slice(), other.segments)
    }
}

impl<'i> vstd::std_specs::cmp::PartialEqSpecImpl<S3Path<'i>> for S3PathBuf {
    open spec fn obeys_eq_spec() -> bool {
        true
    }

    open spec fn eq_spec(&self, other: &S3Path<'i>) -> bool {
        self@ == other@
    }
}

impl<'i> PartialEq<S3PathBuf> for S3Path<'i> {
    /// Equality between the two representations is structural as well.
    fn eq(&self, other: &S3PathBuf) -> (r: bool) {
        segments_eq(self.segments, other.components.as_slice())
    }
}

impl<'i> vstd::std_specs::cmp::PartialEqSpecImpl<S3PathBuf> for S3Path<'i> {
    open spec fn obeys_eq_spec() -> bool {
        true
    }

    open spec fn eq_spec(&self, other: &S3PathBuf) -> bool {
        self@ == other@
    }
}

impl<'i> PartialEq<&S3Path<'i>> for S3PathBuf {
    /// Comparison through a reference to the borrowed representation.
    fn eq(&self, other: &&S3Path<'i>) -> (r: bool) {
        segments_eq(self.components.as_slice(), other.segments)
    }
}

impl<'i> vstd::std_specs::cmp::PartialEqSpecImpl<&S3Path<'i>> for S3PathBuf {
    open spec fn obeys_eq_spec() -> bool {
        true
    }

    open spec fn eq_spec(&self, other: &&S3Path<'i>) -> bool {
        self@ == (*other)@
    }
}

impl<'i> PartialEq<S3PathBuf> for &S3Path<'i> {
    /// Comparison from a reference to the borrowed representation.
    fn eq(&self, other: &S3PathBuf) -> (r: bool) {
        segments_eq(self.segments, other.components.as_slice())
    }
}

impl<'i> vstd::std_specs::cmp::PartialEqSpecImpl<S3PathBuf> for &S3Path<'i> {
    open spec fn obeys_eq_spec() -> bool {
        true
    }

    open spec fn eq_spec(&self, other: &S3PathBuf) -> bool {
        (**self)@ == other@
    }
}

impl Clone for S3PathBuf {
    /// The clone holds equal segments and an independent lifetime.
    fn clone(&self) -> (r: Self)
        ensures
            r@ == self@,
    {
        self.as_path().to_owned()
    }
}

impl Default for S3PathBuf {
    /// The default path is the empty path.
    fn default() -> (r: Self)
        ensures
            r@ == Seq::<Seq<char>>::empty(),
            r.wf(),
    {
        S3PathBuf::new()
    }
}

} // verus!
