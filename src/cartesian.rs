//! Products of any number of sequences, as flat tuples.
//!
//! The product of `a1, ..., an` is the product of `a1` with the product of
//! `a2, ..., an`, each pair `(x, (y, ..., z))` flattened to `(x, y, ..., z)`.
use vstd::prelude::*;
use crate::prepend::TuplePrepend;
use crate::product::{pairs_of, lemma_pairs_len, lemma_pairs_index, Pairs};

verus! {

/// The product of `head` with `rest`, a sequence of tuples, each pair
/// flattened into one longer tuple.
pub open spec fn product_of<A, P: TuplePrepend<A>>(head: Seq<A>, rest: Seq<P>) -> Seq<P::ResultType> {
    pairs_of(head, rest).map_values(|p: (A, P)| p.1.prepend_spec(p.0))
}

/// The product has one tuple for each choice of a head element and a tuple
/// of the rest; it is empty when either is.
pub proof fn lemma_product_len<A, P: TuplePrepend<A>>(head: Seq<A>, rest: Seq<P>)
    ensures
        product_of(head, rest).len() == head.len() * rest.len(),
        head.len() == 0 || rest.len() == 0 ==> product_of(head, rest).len() == 0,
{
    lemma_pairs_len(head, rest);
    assert(head.len() == 0 || rest.len() == 0 ==> head.len() * rest.len() == 0) by (nonlinear_arith);
}

/// The tuples come in the order of nested loops, the head outermost: tuple
/// `i * |rest| + j` splits into `head[i]` and `rest[j]`.
pub proof fn lemma_product_index<A, P: TuplePrepend<A>>(head: Seq<A>, rest: Seq<P>, i: int, j: int)
    requires
        0 <= i < head.len(),
        0 <= j < rest.len(),
    ensures
        0 <= i * rest.len() + j < product_of(head, rest).len(),
        product_of(head, rest)[i * rest.len() + j] == rest[j].prepend_spec(head[i]),
        P::first_of(product_of(head, rest)[i * rest.len() + j]) == head[i],
        P::rest_of(product_of(head, rest)[i * rest.len() + j]) == rest[j],
{
    lemma_pairs_index(head, rest, i, j);
    rest[j].lemma_round_trip(head[i]);
}

/// Splitting each tuple of the product into its first component and the
/// rest gives back the pairwise product, that is two nested loops over
/// `head` and `rest`.
pub proof fn lemma_product_decomposes<A, P: TuplePrepend<A>>(head: Seq<A>, rest: Seq<P>)
    ensures
        product_of(head, rest).map_values(|t: P::ResultType| (P::first_of(t), P::rest_of(t)))
            == pairs_of(head, rest),
{
    let split = product_of(head, rest).map_values(|t: P::ResultType| (P::first_of(t), P::rest_of(t)));
    let pairs = pairs_of(head, rest);
    assert forall|k: int| 0 <= k < pairs.len() implies split[k] == pairs[k] by {
        pairs[k].1.lemma_round_trip(pairs[k].0);
    }
    assert(split =~= pairs);
}

/// A lazy cursor over the product of a head vector with a vector of tuples,
/// handing out flat tuples.
pub struct Product<A, P> {
    pairs: Pairs<A, P>,
}

impl<A: Copy, P: Copy + TuplePrepend<A>> View for Product<A, P> {
    /// The tuples that are still to come, in order.
    type V = Seq<P::ResultType>;

    closed spec fn view(&self) -> Seq<P::ResultType> {
        self.pairs@.map_values(|p: (A, P)| p.1.prepend_spec(p.0))
    }
}

impl<A: Copy, P: Copy + TuplePrepend<A>> Product<A, P> {
    /// The cursor's internal positions are consistent.
    pub closed spec fn wf(&self) -> bool {
        self.pairs.wf()
    }

    /// Starts the product of `head` with the tuples of `rest`.
    pub fn new(head: Vec<A>, rest: Vec<P>) -> (r: Self)
        ensures
            r.wf(),
            r@ == product_of(head@, rest@),
    {
        Product { pairs: Pairs::new(head, rest) }
    }

    /// Hands out the next flat tuple, or `None` once all have been handed out.
    pub fn next(&mut self) -> (r: Option<P::ResultType>)
        requires
            old(self).wf(),
        ensures
            final(self).wf(),
            old(self)@.len() == 0 ==> r.is_none() && final(self)@ == old(self)@,
            old(self)@.len() > 0 ==> r == Some(old(self)@[0]) && final(self)@ == old(self)@.drop_first(),
    {
        match self.pairs.next() {
            None => None,
            Some((x, rest)) => {
                proof {
                    assert(self@ =~= old(self)@.drop_first());
                }
                Some(rest.prepend(x))
            },
        }
    }

    /// Hands out all remaining tuples at once, in order.
    pub fn into_vec(self) -> (r: Vec<P::ResultType>)
        requires
            self.wf(),
        ensures
            r@ == self@,
    {
        let mut cursor = self;
        let mut out: Vec<P::ResultType> = Vec::new();
        loop
            invariant
                cursor.wf(),
                out@ + cursor@ == self@,
            ensures
                out@ == self@,
            decreases cursor@.len(),
        {
            let ghost before = cursor@;
            match cursor.next() {
                None => {
                    assert(out@ + before =~= out@);
                    break;
                },
                Some(t) => {
                    out.push(t);
                    assert(out@ + cursor@ =~= self@);
                },
            }
        }
        out
    }
}

/// The product of `head` with the tuples of `rest`, as flat tuples; with
/// `rest` the product of further sequences this composes any arity.
pub fn cartesian_with<A: Copy, P: Copy + TuplePrepend<A>>(head: Vec<A>, rest: Vec<P>) -> (r: Vec<P::ResultType>)
    ensures
        r@ == product_of(head@, rest@),
{
    Product::new(head, rest).into_vec()
}

/// The product of a single sequence: its elements, unchanged and not tupled.
pub fn cartesian1<A>(a: Vec<A>) -> (r: Vec<A>)
    ensures
        r@ == a@,
{
    a
}

/// The product of two sequences, as pairs.
pub fn cartesian2<A: Copy, B: Copy>(a: Vec<A>, b: Vec<B>) -> (r: Vec<(A, B)>)
    ensures
        r@ == pairs_of(a@, b@),
{
    Pairs::new(a, b).into_vec()
}

/// The product of three sequences as nested loops: for each `x` of `a`,
/// each `y` of `b`, each `z` of `c`, the triple `(x, y, z)`.
pub open spec fn triples_of<A, B, C>(a: Seq<A>, b: Seq<B>, c: Seq<C>) -> Seq<(A, B, C)> {
    product_of(a, pairs_of(b, c))
}

/// The product of three sequences, as triples.
pub fn cartesian3<A: Copy, B: Copy, C: Copy>(a: Vec<A>, b: Vec<B>, c: Vec<C>) -> (r: Vec<(A, B, C)>)
    ensures
        r@ == triples_of(a@, b@, c@),
{
    cartesian_with(a, cartesian2(b, c))
}

/// Three sequences give `|a| * |b| * |c|` triples, none when one is empty.
pub proof fn lemma_triples_len<A, B, C>(a: Seq<A>, b: Seq<B>, c: Seq<C>)
    ensures
        triples_of(a, b, c).len() == a.len() * b.len() * c.len(),
        a.len() == 0 || b.len() == 0 || c.len() == 0 ==> triples_of(a, b, c).len() == 0,
{
    lemma_pairs_len(b, c);
    lemma_product_len(a, pairs_of(b, c));
    assert(a.len() * (b.len() * c.len()) == a.len() * b.len() * c.len()) by (nonlinear_arith);
    assert(a.len() == 0 || b.len() == 0 || c.len() == 0 ==> a.len() * b.len() * c.len() == 0)
        by (nonlinear_arith);
}

/// Triple `(i * |b| + j) * |c| + k` is `(a[i], b[j], c[k])`: the order of
/// three nested loops, `a` outermost and `c` innermost.
pub proof fn lemma_triples_index<A, B, C>(a: Seq<A>, b: Seq<B>, c: Seq<C>, i: int, j: int, k: int)
    requires
        0 <= i < a.len(),
        0 <= j < b.len(),
        0 <= k < c.len(),
    ensures
        0 <= (i * b.len() + j) * c.len() + k < triples_of(a, b, c).len(),
        triples_of(a, b, c)[(i * b.len() + j) * c.len() + k] == (a[i], b[j], c[k]),
{
    lemma_pairs_index(b, c, j, k);
    lemma_pairs_len(b, c);
    lemma_product_index(a, pairs_of(b, c), i, j * c.len() + k);
    assert((i * b.len() + j) * c.len() + k == i * (b.len() * c.len()) + (j * c.len() + k))
        by (nonlinear_arith);
}

} // verus!
