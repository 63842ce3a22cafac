//! The pairwise product of two sequences, produced lazily.
use vstd::prelude::*;

verus! {

/// The pairwise product written as two nested loops: for each element `x`
/// of `a` in order, every element `y` of `b` in order gives `(x, y)`.
pub open spec fn pairs_of<A, B>(a: Seq<A>, b: Seq<B>) -> Seq<(A, B)>
    decreases a.len(),
{
    if a.len() == 0 {
        Seq::empty()
    } else {
        b.map_values(|y: B| (a[0], y)) + pairs_of(a.drop_first(), b)
    }
}

/// The pairwise product has one element for each pair of positions.
pub proof fn lemma_pairs_len<A, B>(a: Seq<A>, b: Seq<B>)
    ensures
        pairs_of(a, b).len() == a.len() * b.len(),
    decreases a.len(),
{
    if a.len() > 0 {
        lemma_pairs_len(a.drop_first(), b);
        assert(a.len() * b.len() == b.len() + (a.len() - 1) * b.len()) by (nonlinear_arith);
    }
}

/// Element `i * |b| + j` of the pairwise product is `(a[i], b[j])`: the
/// left position varies slowest, the right one fastest.
pub proof fn lemma_pairs_index<A, B>(a: Seq<A>, b: Seq<B>, i: int, j: int)
    requires
        0 <= i < a.len(),
        0 <= j < b.len(),
    ensures
        0 <= i * b.len() + j < pairs_of(a, b).len(),
        pairs_of(a, b)[i * b.len() + j] == (a[i], b[j]),
    decreases i,
{
    lemma_pairs_len(a, b);
    lemma_pairs_len(a.drop_first(), b);
    assert(i * b.len() + j < a.len() * b.len()) by (nonlinear_arith)
        requires
            0 <= i < a.len(),
            0 <= j < b.len(),
    ;
    assert(0 <= i * b.len()) by (nonlinear_arith)
        requires
            0 <= i,
    ;
    let first = b.map_values(|y: B| (a[0], y));
    if i == 0 {
        assert(i * b.len() == 0) by (nonlinear_arith)
            requires
                i == 0,
        ;
        assert(first[j] == (a[0], b[j]));
    } else {
        lemma_pairs_index(a.drop_first(), b, i - 1, j);
        assert((i - 1) * b.len() + j + b.len() == i * b.len() + j) by (nonlinear_arith);
        assert(a.drop_first()[i - 1] == a[i]);
    }
}

/// A lazy cursor over the pairwise product of two vectors.
pub struct Pairs<A, B> {
    left: Vec<A>,
    right: Vec<B>,
    i: usize,
    j: usize,
}

impl<A, B> View for Pairs<A, B> {
    /// The pairs that are still to come, in order.
    type V = Seq<(A, B)>;

    closed spec fn view(&self) -> Seq<(A, B)> {
        if self.i < self.left.len() {
            self.right@.skip(self.j as int).map_values(|y: B| (self.left@[self.i as int], y))
                + pairs_of(self.left@.skip(self.i + 1), self.right@)
        } else {
            Seq::empty()
        }
    }
}

proof fn lemma_pairs_unfold<A, B>(a: Seq<A>, b: Seq<B>, i: int)
    requires
        0 <= i < a.len(),
    ensures
        pairs_of(a.skip(i), b) == b.map_values(|y: B| (a[i], y)) + pairs_of(a.skip(i + 1), b),
{
    assert(a.skip(i).drop_first() =~= a.skip(i + 1));
    assert(b.map_values(|y: B| (a.skip(i)[0], y)) =~= b.map_values(|y: B| (a[i], y)));
}

impl<A: Copy, B: Copy> Pairs<A, B> {
    /// The cursor's internal positions are consistent: while pairs remain,
    /// the right position points at an element.
    pub closed spec fn wf(&self) -> bool {
        &&& self.i <= self.left.len()
        &&& self.j <= self.right.len()
        &&& self.i < self.left.len() ==> self.j < self.right.len()
    }

    /// Starts the pairwise product of `left` and `right`.
    pub fn new(left: Vec<A>, right: Vec<B>) -> (r: Self)
        ensures
            r.wf(),
            r@ == pairs_of(left@, right@),
    {
        let i: usize = if right.len() == 0 { left.len() } else { 0 };
        let r = Pairs { left, right, i, j: 0 };
        proof {
            if r.i < r.left.len() {
                lemma_pairs_unfold(r.left@, r.right@, 0);
                assert(r.left@.skip(0) =~= r.left@);
                assert(r.right@.skip(0) =~= r.right@);
            } else {
                assert(pairs_of(left@, right@) =~= Seq::empty()) by {
                    lemma_pairs_len(left@, right@);
                    if left@.len() > 0 {
                        assert(left@.len() * 0 == 0) by (nonlinear_arith);
                    }
                }
            }
        }
        r
    }

    /// Hands out the next pair, or `None` once all pairs have been handed out.
    pub fn next(&mut self) -> (r: Option<(A, B)>)
        requires
            old(self).wf(),
        ensures
            final(self).wf(),
            old(self)@.len() == 0 ==> r.is_none() && final(self)@ == old(self)@,
            old(self)@.len() > 0 ==> r == Some(old(self)@[0]) && final(self)@ == old(self)@.drop_first(),
    {
        if self.i >= self.left.len() {
            return None;
        }
        let x = self.left[self.i];
        let y = self.right[self.j];
        let ghost old_left = self.left@;
        let ghost old_right = self.right@;
        let ghost i0 = self.i as int;
        let ghost j0 = self.j as int;
        let ghost before = self@;
        if self.j + 1 < self.right.len() {
            self.j = self.j + 1;
            proof {
                assert(self@ =~= before.drop_first());
            }
        } else {
            self.j = 0;
            self.i = self.i + 1;
            proof {
                assert(old_right.skip(j0).map_values(|y: B| (old_left[i0], y)).len() == 1);
                if self.i < self.left.len() {
                    lemma_pairs_unfold(old_left, old_right, i0 + 1);
                    assert(old_right.skip(0) =~= old_right);
                    assert(self@ =~= before.drop_first());
                } else {
                    assert(old_left.skip(i0 + 1).len() == 0);
                    assert(self@ =~= before.drop_first());
                }
            }
        }
        Some((x, y))
    }

    /// Hands out all remaining pairs at once, in order.
    pub fn into_vec(self) -> (r: Vec<(A, B)>)
        requires
            self.wf(),
        ensures
            r@ == self@,
    {
        let mut cursor = self;
        let mut out: Vec<(A, B)> = Vec::new();
        loop
            invariant
                cursor.wf(),
                out@ + cursor@ == self@,
            ensures
                out@ == self@,
            decreases cursor@.len(),
        {
            let ghost before = cursor@;
            match cursor.next() {
                None => {
                    assert(out@ + before =~= out@);
                    break;
                },
                Some(pair) => {
                    out.push(pair);
                    assert(out@ + cursor@ =~= self@);
                },
            }
        }
        out
    }
}

} // verus!
