use vstd::arithmetic::div_mod::{lemma_fundamental_div_mod, lemma_mod_pos_bound};
use vstd::prelude::*;

verus! {

/// `ceil(n / d)` for a positive divisor.
pub open spec fn ceil_div(n: nat, d: nat) -> nat
    recommends
        d > 0,
{
    ((n + d - 1) as nat) / d
}

/// Number of pages shown for `n` items: `ceil(n / page_size)`, and one
/// (empty) page when there are no items at all.
pub open spec fn page_count(n: nat, page_size: nat) -> nat {
    if n == 0 {
        1
    } else {
        ceil_div(n, page_size)
    }
}

/// First absolute index of page `page`.
pub open spec fn page_start(page: nat, page_size: nat) -> nat {
    page * page_size
}

/// The window of `items` that page `page` shows: the half-open range
/// `[page * page_size, min((page + 1) * page_size, len))`, empty when the
/// page lies past the end.
pub open spec fn page_window<T>(items: Seq<T>, page_size: nat, page: nat) -> Seq<T> {
    let start = page_start(page, page_size);
    if start < items.len() {
        let end = if start + page_size < items.len() {
            start + page_size
        } else {
            items.len()
        };
        items.subrange(start as int, end as int)
    } else {
        Seq::empty()
    }
}

/// The items of `s` for which the executable predicate `f` answers `true`,
/// in the order they come.
pub open spec fn kept_by<T, F: Fn(&T) -> bool>(s: Seq<T>, f: F) -> Seq<T>
    decreases s.len(),
{
    if s.len() == 0 {
        Seq::empty()
    } else {
        let rest = kept_by(s.drop_last(), f);
        if f.ensures((&s.last(),), true) {
            rest.push(s.last())
        } else {
            rest
        }
    }
}

/// A predicate that can be called on every item and answers one way only.
pub open spec fn is_total_predicate<T, F: Fn(&T) -> bool>(f: F) -> bool {
    &&& forall|x: &T| #[trigger] f.requires((x,))
    &&& forall|x: &T, a: bool, b: bool|
        #[trigger] f.ensures((x,), a) && #[trigger] f.ensures((x,), b) ==> a == b
}

/// A windowed view over an ordered sequence of items.
#[derive(Debug)]
pub struct Paginator<T> {
    pub items: Vec<T>,
    pub page_size: usize,
    pub current_page: usize,
}

impl<T> Paginator<T> {
    /// The full, unpaginated sequence of items.
    pub open spec fn items(&self) -> Seq<T> {
        self.items@
    }

    /// A paginator is usable when its page size is positive.
    pub open spec fn wf(&self) -> bool {
        self.page_size > 0
    }

    /// Number of pages, as a mathematical value.
    pub open spec fn spec_total_pages(&self) -> nat {
        page_count(self.items().len(), self.page_size as nat)
    }

    /// The items that the current page shows.
    pub open spec fn spec_page(&self) -> Seq<T> {
        page_window(self.items(), self.page_size as nat, self.current_page as nat)
    }

    /// The page index stays within `[0, max(1, total_pages))`.
    pub open spec fn page_in_range(&self) -> bool {
        self.current_page < self.spec_total_pages()
    }

    pub fn new(items: Vec<T>, page_size: usize) -> (r: Self)
        requires
            page_size > 0,
        ensures
            r.wf(),
            r.items() == items@,
            r.page_size == page_size,
            r.current_page == 0,
            r.page_in_range(),
    {
        let r = Paginator { items, page_size, current_page: 0 };
        proof {
            lemma_page_count_positive(r.items().len(), page_size as nat);
        }
        r
    }

    pub fn total_pages(&self) -> (r: usize)
        requires
            self.wf(),
        ensures
            r == self.spec_total_pages(),
            r >= 1,
    {
        let n = self.items.len();
        let full = n / self.page_size;
        assert(n % self.page_size != 0 ==> full < usize::MAX) by (nonlinear_arith)
            requires
                full == n / self.page_size,
                self.page_size > 0,
        ;
        let pages = if n % self.page_size == 0 {
            full
        } else {
            full + 1
        };
        proof {
            lemma_ceil_div(n as nat, self.page_size as nat);
            lemma_page_count_positive(n as nat, self.page_size as nat);
        }
        if pages == 0 {
            1
        } else {
            pages
        }
    }

    pub fn all_items(&self) -> (r: &[T])
        ensures
            r@ == self.items(),
    {
        self.items.as_slice()
    }

    pub fn all_items_mut(&mut self) -> (r: &mut [T])
        ensures
            r@ == old(self).items(),
            final(self).items() == final(r)@,
            final(self).page_size == old(self).page_size,
            final(self).current_page == old(self).current_page,
    {
        self.items.as_mut_slice()
    }

    pub fn current_page_items(&self) -> (r: &[T])
        requires
            self.wf(),
        ensures
            r@ == self.spec_page(),
    {
        let n = self.items.len();
        if n == 0 || self.current_page >= self.total_pages() {
            proof {
                lemma_window_past_end(self.items(), self.page_size as nat, self.current_page as nat);
            }
            return &self.items.as_slice()[n..n];
        }
        proof {
            lemma_page_start_in_range(n as nat, self.page_size as nat, self.current_page as nat);
        }
        let start = self.current_page * self.page_size;
        let end = if self.page_size < n - start {
            start + self.page_size
        } else {
            n
        };
        &self.items.as_slice()[start..end]
    }

    pub fn next_page(&mut self)
        requires
            old(self).wf(),
        ensures
            final(self).items() == old(self).items(),
            final(self).page_size == old(self).page_size,
            final(self).current_page == if old(self).current_page + 1 < old(
                self,
            ).spec_total_pages() {
                old(self).current_page + 1
            } else {
                old(self).current_page as int
            },
    {
        let last = self.total_pages() - 1;
        if self.current_page < last {
            self.current_page = self.current_page + 1;
        }
    }

    pub fn prev_page(&mut self)
        ensures
            final(self).items() == old(self).items(),
            final(self).page_size == old(self).page_size,
            final(self).current_page == if old(self).current_page > 0 {
                old(self).current_page - 1
            } else {
                0int
            },
    {
        if self.current_page > 0 {
            self.current_page = self.current_page - 1;
        }
    }

    /// Every item, across all pages, that `predicate` accepts, in order.
    pub fn filter<F>(&self, predicate: F) -> (r: Vec<&T>)
        where
            F: Fn(&T) -> bool,
        requires
            is_total_predicate(predicate),
        ensures
            r@.map_values(|x: &T| *x) == kept_by(self.items(), predicate),
    {
        let mut r: Vec<&T> = Vec::new();
        let mut i: usize = 0;
        while i < self.items.len()
            invariant
                i <= self.items@.len(),
                is_total_predicate(predicate),
                r@.map_values(|x: &T| *x) == kept_by(self.items@.take(i as int), predicate),
            decreases self.items@.len() - i,
        {
            let item = &self.items[i];
            let keep = predicate(item);
            proof {
                let s = self.items@.take(i as int + 1);
                assert(s.drop_last() == self.items@.take(i as int));
                assert(s.last() == *item);
            }
            if keep {
                r.push(item);
            }
            proof {
                let s = self.items@.take(i as int + 1);
                if keep {
                    assert(r@.map_values(|x: &T| *x) =~= kept_by(s.drop_last(), predicate).push(
                        s.last(),
                    ));
                } else {
                    assert(!predicate.ensures((&s.last(),), true));
                }
            }
            i = i + 1;
        }
        assert(self.items@.take(self.items@.len() as int) =~= self.items@);
        r
    }
}

proof fn lemma_ceil_div(n: nat, d: nat)
    requires
        d > 0,
    ensures
        ceil_div(n, d) == n / d + if n % d == 0 {
            0nat
        } else {
            1nat
        },
{
    assert(ceil_div(n, d) == n / d + if n % d == 0 {
        0nat
    } else {
        1nat
    }) by (nonlinear_arith)
        requires
            d > 0,
            ceil_div(n, d) == ((n + d - 1) as nat) / d,
    ;
}

proof fn lemma_page_count_positive(n: nat, d: nat)
    requires
        d > 0,
    ensures
        page_count(n, d) >= 1,
        n > 0 ==> page_count(n, d) == ceil_div(n, d),
{
    if n > 0 {
        assert(((n + d - 1) as nat) / d >= 1) by (nonlinear_arith)
            requires
                d > 0,
                n > 0,
        ;
    }
}

/// A page index below the page count starts inside the items.
proof fn lemma_page_start_in_range(n: nat, d: nat, p: nat)
    requires
        d > 0,
        p < page_count(n, d),
        n > 0,
    ensures
        p * d < n,
{
    lemma_ceil_div(n, d);
    lemma_fundamental_div_mod(n as int, d as int);
    lemma_mod_pos_bound(n as int, d as int);
    assert(p * d < n) by (nonlinear_arith)
        requires
            d > 0,
            p < n / d + if n % d == 0 {
                0nat
            } else {
                1nat
            },
            n == d * (n / d) + n % d,
            n % d < d,
    {}
}

/// A page index at or past the page count shows nothing.
proof fn lemma_window_past_end<T>(s: Seq<T>, d: nat, p: nat)
    requires
        d > 0,
        s.len() == 0 || p >= page_count(s.len(), d),
    ensures
        page_window(s, d, p) =~= s.subrange(s.len() as int, s.len() as int),
{
    let n = s.len();
    if n > 0 {
        lemma_ceil_div(n, d);
        lemma_fundamental_div_mod(n as int, d as int);
        lemma_mod_pos_bound(n as int, d as int);
        assert(p * d >= n) by (nonlinear_arith)
            requires
                d > 0,
                p >= n / d + if n % d == 0 {
                    0nat
                } else {
                    1nat
                },
                n == d * (n / d) + n % d,
                n % d < d,
        {}
    } else {
        assert(p * d >= 0) by (nonlinear_arith);
    }
}

/// For any item count `n > 0` and positive page size, the page count is
/// `ceil(n / page_size)`; and any page shows at most `page_size` items, each
/// one the item at its absolute index, which lies in `[0, n)`.
pub proof fn lemma_pagination_arithmetic<T>(items: Seq<T>, page_size: nat, page: nat)
    requires
        page_size > 0,
    ensures
        items.len() > 0 ==> page_count(items.len(), page_size) == ceil_div(items.len(), page_size),
        page_window(items, page_size, page).len() <= page_size,
        forall|j: int|
            0 <= j < page_window(items, page_size, page).len() ==> {
                &&& 0 <= page_start(page, page_size) + j < items.len()
                &&& #[trigger] page_window(items, page_size, page)[j] == items[page_start(page, page_size) + j]
            },
{
    lemma_page_count_positive(items.len(), page_size);
}

} // verus!
