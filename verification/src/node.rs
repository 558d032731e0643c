//! Hierarchical reference paths: ordered chains of names, written in
//! documents as `.`-separated strings.

use vstd::prelude::*;

use crate::name::Name;

verus! {

/// The views of a sequence of names.
pub open spec fn names_views(v: Seq<Name>) -> Seq<Seq<char>> {
    Seq::new(v.len(), |i: int| v[i]@)
}

/// The segments joined with `.` between them.
pub open spec fn dot_join(segs: Seq<Seq<char>>) -> Seq<char>
    decreases segs.len(),
{
    if segs.len() == 0 {
        Seq::empty()
    } else if segs.len() == 1 {
        segs[0]
    } else {
        dot_join(segs.drop_last()) + seq!['.'] + segs.last()
    }
}

/// Writing a path and splitting it back yields the same segments, as
/// long as there is at least one segment and no segment contains the
/// separator itself.
pub proof fn lemma_dot_join_split_round_trip(segs: Seq<Seq<char>>)
    requires
        segs.len() >= 1,
        forall|i: int, j: int|
            0 <= i < segs.len() && 0 <= j < segs[i].len() ==> #[trigger] segs[i][j] != '.',
    ensures
        crate::name::dot_split(dot_join(segs)) =~~= segs,
    decreases segs.len(),
{
    if segs.len() == 1 {
        crate::text::lemma_char_split_no_sep(segs[0], '.');
    } else {
        lemma_dot_join_split_round_trip(segs.drop_last());
        assert(forall|j: int|
            0 <= j < segs.last().len() ==> #[trigger] segs.last()[j] != '.');
        crate::text::lemma_char_split_append(dot_join(segs.drop_last()), segs.last(), '.');
        assert(segs.drop_last().push(segs.last()) =~= segs);
    }
}

/// A reference path: an ordered chain of names.
#[derive(Debug)]
pub struct Node(pub Vec<Name>);

impl View for Node {
    type V = Seq<Seq<char>>;

    open spec fn view(&self) -> Seq<Seq<char>> {
        names_views(self.0@)
    }
}

impl Clone for Node {
    fn clone(&self) -> (r: Self)
        ensures
            r@ == self@,
    {
        let mut names: Vec<Name> = Vec::new();
        for i in 0..self.0.len()
            invariant
                names@.len() == i,
                forall|j: int| 0 <= j < i ==> (#[trigger] names@[j])@ == self.0@[j]@,
            decreases self.0@.len() - i,
        {
            names.push(self.0[i].clone());
        }
        let r = Node(names);
        proof {
            assert(r@ =~= self@);
        }
        r
    }
}

impl PartialEq for Node {
    fn eq(&self, other: &Self) -> (r: bool) {
        node_names_eq(&self.0, &other.0)
    }
}

impl vstd::std_specs::cmp::PartialEqSpecImpl for Node {
    open spec fn obeys_eq_spec() -> bool {
        true
    }

    open spec fn eq_spec(&self, other: &Self) -> bool {
        self@ == other@
    }
}

/// Compares two name chains segment for segment.
pub fn node_names_eq(a: &Vec<Name>, b: &Vec<Name>) -> (r: bool)
    ensures
        r == (names_views(a@) == names_views(b@)),
{
    if a.len() != b.len() {
        proof {
            assert(names_views(a@).len() != names_views(b@).len());
        }
        return false;
    }
    for i in 0..a.len()
        invariant
            a@.len() == b@.len(),
            forall|j: int| 0 <= j < i ==> (#[trigger] a@[j])@ == b@[j]@,
        decreases a@.len() - i,
    {
        if !(a[i] == b[i]) {
            proof {
                assert(names_views(a@)[i as int] != names_views(b@)[i as int]);
            }
            return false;
        }
    }
    proof {
        assert(names_views(a@) =~= names_views(b@));
    }
    true
}

impl Node {
    /// The textual form of the path: its names joined with `.`.
    pub fn text(&self) -> (r: String)
        ensures
            r@ == dot_join(self@),
    {
        let mut out = String::new();
        for i in 0..self.0.len()
            invariant
                out@ == dot_join(self@.take(i as int)),
            decreases self.0@.len() - i,
        {
            proof {
                let t1 = self@.take(i + 1);
                assert(t1.drop_last() =~= self@.take(i as int));
                assert(t1.last() == self@[i as int]);
            }
            if i > 0 {
                out.append(".");
                proof {
                    reveal_strlit(".");
                }
            }
            out.append(self.0[i].as_str());
        }
        proof {
            assert(self@.take(self.0@.len() as int) =~= self@);
        }
        out
    }
}

} // verus!
