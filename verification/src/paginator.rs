use vstd::prelude::*;

verus! {

/// A windowed view over an ordered sequence of items.
///
/// The paginator owns its backing sequence.  The page size is fixed at
/// construction; the current page moves between `0` and the last page and
/// never wraps around.
pub struct Paginator<T> {
    pub items: Vec<T>,
    pub page_size: usize,
    pub current_page: usize,
}

/// The elements of `s` at the positions where `keep` is true, in order.
pub open spec fn select<T>(s: Seq<T>, keep: Seq<bool>) -> Seq<T>
    recommends
        s.len() == keep.len(),
    decreases s.len(),
{
    if s.len() == 0 {
        Seq::empty()
    } else if keep.len() == s.len() && keep.last() {
        select(s.drop_last(), keep.drop_last()).push(s.last())
    } else {
        select(s.drop_last(), keep.drop_last())
    }
}

impl<T> Paginator<T> {
    /// How many pages the items fill: `ceil(len / page_size)`, 0 when empty.
    pub open spec fn spec_total_pages(self) -> int {
        (self.items@.len() as int + self.page_size as int - 1) / self.page_size as int
    }

    /// The structural invariant: a positive page size, and a current page
    /// that stays on an existing page (or on page 0 when there are none).
    pub open spec fn wf(self) -> bool {
        &&& self.page_size > 0
        &&& self.spec_total_pages() == 0 ==> self.current_page == 0
        &&& self.spec_total_pages() > 0 ==> (self.current_page as int) < self.spec_total_pages()
    }

    pub fn new(items: Vec<T>, page_size: usize) -> (r: Paginator<T>)
        requires
            page_size > 0,
        ensures
            r.items@ == items@,
            r.page_size == page_size,
            r.current_page == 0,
            r.wf(),
    {
        Paginator { items, page_size, current_page: 0 }
    }

    pub fn total_pages(&self) -> (r: usize)
        requires
            self.page_size > 0,
        ensures
            r as int == self.spec_total_pages(),
    {
        if self.items.len() == 0 {
            proof {
                let p = self.page_size as int;
                assert((p - 1) / p == 0) by (nonlinear_arith)
                    requires
                        p >= 1,
                ;
            }
            0
        } else {
            let r = (self.items.len() - 1) / self.page_size + 1;
            proof {
                let n = self.items@.len() as int;
                let p = self.page_size as int;
                assert((n - 1) / p + 1 == (n + p - 1) / p) by (nonlinear_arith)
                    requires
                        n >= 1,
                        p >= 1,
                ;
            }
            r
        }
    }

    pub fn all_items(&self) -> (r: &[T])
        ensures
            r@ == self.items@,
    {
        self.items.as_slice()
    }

    pub fn all_items_mut(&mut self) -> (r: &mut [T])
        ensures
            r@ == old(self).items@,
            final(self).items@ == final(r)@,
            final(self).page_size == old(self).page_size,
            final(self).current_page == old(self).current_page,
    {
        self.items.as_mut_slice()
    }

    /// The slice `[page * size, min(page * size + size, len))` of the items.
    pub fn current_page_items(&self) -> (r: &[T])
        requires
            self.wf(),
        ensures
            r@ == self.items@.subrange(
                self.current_page as int * self.page_size as int,
                spec_min(
                    self.current_page as int * self.page_size as int + self.page_size as int,
                    self.items@.len() as int,
                ),
            ),
    {
        let len = self.items.len();
        proof {
            let n = self.items@.len() as int;
            let p = self.page_size as int;
            let c = self.current_page as int;
            assert(c * p <= n) by (nonlinear_arith)
                requires
                    p >= 1,
                    n >= 0,
                    c >= 0,
                    (n + p - 1) / p == 0 ==> c == 0,
                    (n + p - 1) / p > 0 ==> c < (n + p - 1) / p,
            ;
        }
        let start = self.current_page * self.page_size;
        let end = if len - start < self.page_size {
            len
        } else {
            start + self.page_size
        };
        vstd::slice::slice_subrange(self.items.as_slice(), start, end)
    }

    /// Move one page forward; a no-op on the last page (and when empty).
    pub fn next_page(&mut self)
        requires
            old(self).wf(),
        ensures
            final(self).wf(),
            final(self).items@ == old(self).items@,
            final(self).page_size == old(self).page_size,
            final(self).current_page == if old(self).current_page as int + 1
                < old(self).spec_total_pages() {
                old(self).current_page as int + 1
            } else {
                old(self).current_page as int
            },
    {
        let total = self.total_pages();
        if self.current_page < usize::MAX && self.current_page + 1 < total {
            self.current_page = self.current_page + 1;
        }
    }

    /// Move one page back; a no-op on the first page.
    pub fn prev_page(&mut self)
        requires
            old(self).wf(),
        ensures
            final(self).wf(),
            final(self).items@ == old(self).items@,
            final(self).page_size == old(self).page_size,
            final(self).current_page == if old(self).current_page > 0 {
                old(self).current_page as int - 1
            } else {
                0int
            },
    {
        if self.current_page > 0 {
            self.current_page = self.current_page - 1;
        }
    }

    /// All items satisfying the predicate, across the whole collection.
    pub fn filter<F: Fn(&T) -> bool>(&self, predicate: F) -> (r: Vec<&T>)
        requires
            forall|i: int|
                0 <= i < self.items@.len() ==> call_requires(predicate, (&self.items@[i],)),
        ensures
            exists|keep: Seq<bool>|
                {
                    &&& keep.len() == self.items@.len()
                    &&& forall|i: int|
                        0 <= i < keep.len() ==> call_ensures(
                            predicate,
                            (&self.items@[i],),
                            #[trigger] keep[i],
                        )
                    &&& r@.map_values(|x: &T| *x) == select(self.items@, keep)
                },
    {
        let mut r: Vec<&T> = Vec::new();
        let mut j: usize = 0;
        let ghost mut keep: Seq<bool> = Seq::empty();
        proof {
            assert(r@.map_values(|x: &T| *x) =~= select(self.items@.take(0), keep));
        }
        while j < self.items.len()
            invariant
                forall|i: int|
                    0 <= i < self.items@.len() ==> call_requires(predicate, (&self.items@[i],)),
                j <= self.items@.len(),
                keep.len() == j,
                forall|i: int|
                    0 <= i < j ==> call_ensures(predicate, (&self.items@[i],), #[trigger] keep[i]),
                r@.map_values(|x: &T| *x) == select(self.items@.take(j as int), keep),
            decreases self.items@.len() - j,
        {
            let ghost old_keep = keep;
            let ghost old_mapped = r@.map_values(|x: &T| *x);
            let b = predicate(&self.items[j]);
            proof {
                keep = keep.push(b);
                assert(keep.drop_last() =~= old_keep);
                assert(self.items@.take(j as int + 1).drop_last() =~= self.items@.take(j as int));
            }
            if b {
                r.push(&self.items[j]);
                proof {
                    assert(r@.map_values(|x: &T| *x) =~= old_mapped.push(self.items@[j as int]));
                }
            }
            proof {
                assert(select(self.items@.take(j as int + 1), keep) == if b {
                    select(self.items@.take(j as int), old_keep).push(self.items@[j as int])
                } else {
                    select(self.items@.take(j as int), old_keep)
                });
            }
            j = j + 1;
        }
        proof {
            assert(self.items@.take(self.items@.len() as int) =~= self.items@);
        }
        r
    }
}

/// The smaller of two integers.
pub open spec fn spec_min(a: int, b: int) -> int {
    if a < b {
        a
    } else {
        b
    }
}

/// On a well-formed paginator the current page's first position stays
/// within the items.
pub proof fn lemma_page_start_le_len<T>(p: Paginator<T>)
    requires
        p.wf(),
    ensures
        0 <= p.current_page as int * p.page_size as int <= p.items@.len() as int,
{
    let n = p.items@.len() as int;
    let q = p.page_size as int;
    let c = p.current_page as int;
    assert(0 <= c * q <= n) by (nonlinear_arith)
        requires
            q >= 1,
            n >= 0,
            c >= 0,
            (n + q - 1) / q == 0 ==> c == 0,
            (n + q - 1) / q > 0 ==> c < (n + q - 1) / q,
    ;
}

/// The invariant reading of well-formedness: the current page never leaves
/// `[0, total_pages - 1]`, and stays 0 when there are no pages.
pub proof fn lemma_current_page_in_range<T>(p: Paginator<T>)
    requires
        p.wf(),
    ensures
        p.spec_total_pages() == 0 ==> p.current_page == 0,
        p.spec_total_pages() > 0 ==> 0 <= (p.current_page as int) < p.spec_total_pages(),
{
}

/// The page lengths: every page is full except possibly the last, whose
/// length is `n mod p` (or `p` when `p` divides `n` evenly).
pub proof fn lemma_page_lengths(n: int, p: int, q: int)
    requires
        p >= 1,
        n >= 0,
        0 <= q < (n + p - 1) / p,
    ensures
        spec_min(q * p + p, n) - q * p == if q < (n + p - 1) / p - 1 {
            p
        } else if n % p == 0 {
            p
        } else {
            n % p
        },
{
    assert(spec_min(q * p + p, n) - q * p == if q < (n + p - 1) / p - 1 {
        p
    } else if n % p == 0 {
        p
    } else {
        n % p
    }) by (nonlinear_arith)
        requires
            p >= 1,
            n >= 0,
            0 <= q < (n + p - 1) / p,
    ;
}

} // verus!
