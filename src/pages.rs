//! Collecting independently rendered pages into document order.
//!
//! A buffer is reserved for every page before any work starts; a rendered
//! page goes to its own position whatever the order in which pages finish,
//! and a failed page leaves its buffer empty and adds a diagnostic. The
//! document is delivered only when every page has bytes.

use vstd::prelude::*;

verus! {

/// The outcome of rendering one page: the page's position and its bytes or
/// diagnostic.
pub type PageOutcome<D> = (usize, Result<Vec<u8>, D>);

/// The buffers after applying `outcomes`, in that order, to `count` empty
/// buffers: a rendered page is written at its position.
pub open spec fn placed<D>(count: nat, outcomes: Seq<PageOutcome<D>>) -> Seq<Seq<u8>>
    decreases outcomes.len(),
{
    if outcomes.len() == 0 {
        Seq::new(count, |i: int| Seq::<u8>::empty())
    } else {
        let prev = placed(count, outcomes.drop_last());
        let (i, res) = outcomes.last();
        match res {
            Ok(bytes) => if i < count {
                prev.update(i as int, bytes@)
            } else {
                prev
            },
            Err(_) => prev,
        }
    }
}

/// The diagnostics of the failed pages among `outcomes`, in order.
pub open spec fn failures<D>(outcomes: Seq<PageOutcome<D>>) -> Seq<D>
    decreases outcomes.len(),
{
    if outcomes.len() == 0 {
        Seq::empty()
    } else {
        let prev = failures(outcomes.drop_last());
        match outcomes.last().1 {
            Ok(_) => prev,
            Err(d) => prev.push(d),
        }
    }
}

/// No two outcomes are for the same page.
pub open spec fn distinct_pages<D>(outcomes: Seq<PageOutcome<D>>) -> bool {
    forall|a: int, b: int|
        0 <= a < outcomes.len() && 0 <= b < outcomes.len() && a != b ==> (#[trigger] outcomes[a]).0
            != (#[trigger] outcomes[b]).0
}

/// Some page has no bytes.
pub open spec fn has_empty_page(pages: Seq<Seq<u8>>) -> bool {
    exists|i: int| 0 <= i < pages.len() && (#[trigger] pages[i]).len() == 0
}

/// The document when every page has bytes, else nothing.
pub open spec fn delivered(pages: Seq<Seq<u8>>) -> Option<Seq<Seq<u8>>> {
    if has_empty_page(pages) {
        None
    } else {
        Some(pages)
    }
}

/// The bytes views of some buffers.
pub open spec fn views(buffers: Seq<Vec<u8>>) -> Seq<Seq<u8>> {
    buffers.map(|_i: int, b: Vec<u8>| b@)
}

/// The buffers and diagnostics of a document's pages being rendered.
pub struct PageCollector<D> {
    pages: Vec<Vec<u8>>,
    errors: Vec<D>,
}

impl<D> PageCollector<D> {
    /// The page buffers, by position.
    pub closed spec fn pages_view(&self) -> Seq<Seq<u8>> {
        views(self.pages@)
    }

    /// The diagnostics collected so far.
    pub closed spec fn errors_view(&self) -> Seq<D> {
        self.errors@
    }

    /// `count` empty buffers, after the diagnostics `upstream` of the
    /// compilation itself.
    pub fn new(count: usize, upstream: Vec<D>) -> (r: Self)
        ensures
            r.pages_view() == placed::<D>(count as nat, Seq::empty()),
            r.errors_view() == upstream@,
    {
        let mut pages: Vec<Vec<u8>> = Vec::new();
        let mut j: usize = 0;
        while j < count
            invariant
                j <= count,
                views(pages@) =~= Seq::new(j as nat, |i: int| Seq::<u8>::empty()),
            decreases count - j,
        {
            let ghost before = pages@;
            let empty: Vec<u8> = Vec::new();
            assert(empty@ =~= Seq::<u8>::empty());
            pages.push(empty);
            assert(views(pages@) =~= views(before).push(Seq::<u8>::empty()));
            j = j + 1;
        }
        PageCollector { pages, errors: upstream }
    }

    /// Records the outcome of the page at `index`: its bytes go to its own
    /// buffer, a diagnostic joins the others.
    pub fn record(&mut self, index: usize, outcome: Result<Vec<u8>, D>)
        ensures
            final(self).pages_view() == match outcome {
                Ok(bytes) => if index < old(self).pages_view().len() {
                    old(self).pages_view().update(index as int, bytes@)
                } else {
                    old(self).pages_view()
                },
                Err(_) => old(self).pages_view(),
            },
            final(self).errors_view() == match outcome {
                Ok(_) => old(self).errors_view(),
                Err(d) => old(self).errors_view().push(d),
            },
    {
        match outcome {
            Ok(bytes) => {
                if index < self.pages.len() {
                    let ghost b = bytes@;
                    self.pages.set(index, bytes);
                    assert(views(self.pages@) =~= views(old(self).pages@).update(index as int, b));
                }
            },
            Err(d) => {
                self.errors.push(d);
            },
        }
    }

    /// The pages, if every one has bytes, and all diagnostics.
    pub fn finish(self) -> (r: (Option<Vec<Vec<u8>>>, Vec<D>))
        ensures
            r.0 is None <==> has_empty_page(self.pages_view()),
            r.0 is Some ==> views(r.0->0@) == self.pages_view(),
            r.1@ == self.errors_view(),
    {
        let mut j: usize = 0;
        let mut complete = true;
        while j < self.pages.len()
            invariant
                j <= self.pages@.len(),
                complete <==> forall|x: int| 0 <= x < j ==> (#[trigger] self.pages@[x])@.len() != 0,
            decreases self.pages@.len() - j,
        {
            if self.pages[j].len() == 0 {
                complete = false;
            }
            j = j + 1;
        }
        assert(complete <==> !has_empty_page(self.pages_view())) by {
            if !complete {
                let x = choose|x: int| 0 <= x < self.pages@.len() && (#[trigger] self.pages@[x])@.len() == 0;
                assert(self.pages_view()[x].len() == 0);
            }
            if has_empty_page(self.pages_view()) {
                let x = choose|x: int| 0 <= x < self.pages_view().len() && (#[trigger] self.pages_view()[x]).len() == 0;
                assert(self.pages@[x]@.len() == 0);
            }
        }
        if complete {
            (Some(self.pages), self.errors)
        } else {
            (None, self.errors)
        }
    }
}

/// Collects the outcomes of rendering `count` pages, given in the order the
/// pages finished, after the diagnostics `upstream` of the compilation.
/// Returns the pages in document order when every page has bytes, and all
/// diagnostics.
pub fn collect_pages<D>(count: usize, upstream: Vec<D>, outcomes: Vec<PageOutcome<D>>) -> (r: (
    Option<Vec<Vec<u8>>>,
    Vec<D>,
))
    ensures
        ({
            let pages = placed(count as nat, outcomes@);
            &&& r.0 is None <==> has_empty_page(pages)
            &&& r.0 is Some ==> views(r.0->0@) == pages
        }),
        r.1@ == upstream@ + failures(outcomes@),
{
    let ghost all = outcomes@;
    let mut collector = PageCollector::new(count, upstream);
    let mut pending = outcomes;
    let n = pending.len();
    let mut k: usize = 0;
    while k < n
        invariant
            n == all.len(),
            k <= n,
            pending@ == all.subrange(k as int, n as int),
            collector.pages_view() == placed(count as nat, all.subrange(0, k as int)),
            collector.errors_view() == upstream@ + failures(all.subrange(0, k as int)),
            collector.pages_view().len() == count,
        decreases n - k,
    {
        let (index, outcome) = pending.remove(0);
        assert(pending@ =~= all.subrange(k as int + 1, n as int));
        let ghost step = all.subrange(0, k as int + 1);
        assert(step.drop_last() =~= all.subrange(0, k as int));
        assert(step.last() == all[k as int]);
        collector.record(index, outcome);
        proof {
            lemma_placed_len(count as nat, step);
        }
        assert(collector.errors_view() =~= upstream@ + failures(step));
        k = k + 1;
    }
    assert(all.subrange(0, n as int) =~= all);
    collector.finish()
}

/// Placing never changes the number of buffers.
pub proof fn lemma_placed_len<D>(count: nat, outcomes: Seq<PageOutcome<D>>)
    ensures
        placed(count, outcomes).len() == count,
    decreases outcomes.len(),
{
    if outcomes.len() > 0 {
        lemma_placed_len(count, outcomes.drop_last());
    }
}

/// The buffer of page `i` holds the bytes of the outcome for page `i` when
/// that page rendered, and stays empty when it did not.
pub proof fn lemma_placed_at<D>(count: nat, outcomes: Seq<PageOutcome<D>>, i: int)
    requires
        0 <= i < count,
        distinct_pages(outcomes),
    ensures
        forall|j: int|
            0 <= j < outcomes.len() && outcomes[j].0 == i && (#[trigger] outcomes[j]).1 is Ok
                ==> placed(count, outcomes)[i] == outcomes[j].1->Ok_0@,
        (forall|j: int| 0 <= j < outcomes.len() ==> (#[trigger] outcomes[j]).0 != i || outcomes[j].1 is Err)
            ==> placed(count, outcomes)[i].len() == 0,
    decreases outcomes.len(),
{
    lemma_placed_len(count, outcomes);
    if outcomes.len() > 0 {
        let prev = outcomes.drop_last();
        assert(distinct_pages(prev)) by {
            assert forall|a: int, b: int|
                0 <= a < prev.len() && 0 <= b < prev.len() && a != b implies (#[trigger] prev[a]).0
                    != (#[trigger] prev[b]).0 by {
                assert(prev[a] == outcomes[a]);
                assert(prev[b] == outcomes[b]);
            }
        }
        lemma_placed_at(count, prev, i);
        lemma_placed_len(count, prev);
        let last = outcomes.len() - 1;
        assert forall|j: int|
            0 <= j < outcomes.len() && outcomes[j].0 == i && (#[trigger] outcomes[j]).1 is Ok
                implies placed(count, outcomes)[i] == outcomes[j].1->Ok_0@ by {
            if j < last {
                assert(prev[j] == outcomes[j]);
                assert(outcomes[last].0 != i);
            }
        }
        if forall|j: int| 0 <= j < outcomes.len() ==> (#[trigger] outcomes[j]).0 != i || outcomes[j].1 is Err {
            assert forall|j: int| 0 <= j < prev.len() implies (#[trigger] prev[j]).0 != i || prev[j].1 is Err by {
                assert(prev[j] == outcomes[j]);
            }
            assert(outcomes[last].0 != i || outcomes[last].1 is Err);
        }
    } else {
        assert(placed(count, outcomes)[i] == Seq::<u8>::empty());
    }
}

/// The order in which pages finish does not matter: any two orders of the
/// same outcomes, one per page, give the same document.
pub proof fn lemma_completion_order_irrelevant<D>(
    count: nat,
    first: Seq<PageOutcome<D>>,
    second: Seq<PageOutcome<D>>,
)
    requires
        distinct_pages(first),
        distinct_pages(second),
        forall|e: PageOutcome<D>| first.contains(e) <==> second.contains(e),
    ensures
        placed(count, first) == placed(count, second),
{
    lemma_placed_len(count, first);
    lemma_placed_len(count, second);
    assert forall|i: int| 0 <= i < count implies placed(count, first)[i] == placed(count, second)[i] by {
        lemma_placed_at(count, first, i);
        lemma_placed_at(count, second, i);
        if exists|j: int| 0 <= j < first.len() && first[j].0 == i && (#[trigger] first[j]).1 is Ok {
            let j = choose|j: int| 0 <= j < first.len() && first[j].0 == i && (#[trigger] first[j]).1 is Ok;
            assert(first.contains(first[j]));
            assert(second.contains(first[j]));
            let k = choose|k: int| 0 <= k < second.len() && second[k] == first[j];
            assert(second[k].0 == i && second[k].1 is Ok);
        } else if exists|k: int| 0 <= k < second.len() && second[k].0 == i && (#[trigger] second[k]).1 is Ok {
            let k = choose|k: int| 0 <= k < second.len() && second[k].0 == i && (#[trigger] second[k]).1 is Ok;
            assert(second.contains(second[k]));
            assert(first.contains(second[k]));
            let j = choose|j: int| 0 <= j < first.len() && first[j] == second[k];
            assert(first[j].0 == i && first[j].1 is Ok);
        } else {
            assert forall|j: int| 0 <= j < first.len() implies (#[trigger] first[j]).0 != i || first[j].1 is Err by {
            }
            assert forall|k: int| 0 <= k < second.len() implies (#[trigger] second[k]).0 != i || second[k].1 is Err by {
            }
        }
    }
    assert(placed(count, first) =~= placed(count, second));
}

/// A page that failed, with no other outcome for its position, withholds the
/// whole document: nothing is delivered, even when every other page
/// rendered, and its diagnostic is among those returned.
pub proof fn lemma_failed_page_withholds_document<D>(count: nat, outcomes: Seq<PageOutcome<D>>, f: int)
    requires
        distinct_pages(outcomes),
        0 <= f < outcomes.len(),
        outcomes[f].0 < count,
        outcomes[f].1 is Err,
    ensures
        delivered(placed(count, outcomes)) is None,
        failures(outcomes).contains(outcomes[f].1->Err_0),
{
    let i = outcomes[f].0 as int;
    lemma_placed_at(count, outcomes, i);
    lemma_placed_len(count, outcomes);
    assert forall|j: int| 0 <= j < outcomes.len() implies (#[trigger] outcomes[j]).0 != i || outcomes[j].1 is Err by {
        if j != f {
            assert(outcomes[j].0 != outcomes[f].0);
        }
    }
    assert(placed(count, outcomes)[i].len() == 0);
    lemma_failure_listed(outcomes, f);
}

/// The diagnostic of every failed outcome is listed.
pub proof fn lemma_failure_listed<D>(outcomes: Seq<PageOutcome<D>>, f: int)
    requires
        0 <= f < outcomes.len(),
        outcomes[f].1 is Err,
    ensures
        failures(outcomes).contains(outcomes[f].1->Err_0),
    decreases outcomes.len(),
{
    let prev = outcomes.drop_last();
    if f == outcomes.len() - 1 {
        let fs = failures(outcomes);
        assert(fs[fs.len() - 1] == outcomes[f].1->Err_0);
    } else {
        assert(prev[f] == outcomes[f]);
        lemma_failure_listed(prev, f);
        let fp = failures(prev);
        let x = choose|x: int| 0 <= x < fp.len() && fp[x] == outcomes[f].1->Err_0;
        let fs = failures(outcomes);
        match outcomes.last().1 {
            Ok(_) => {},
            Err(d) => {
                assert(fs[x] == fp[x]);
            },
        }
    }
}

} // verus!
