//! Planning which parts of a snapshot memory file are overwritten with zeros.
//!
//! Zeroed free pages make a memory file compress better. The plan groups free pages into batches,
//! and the pages of a batch into runs of consecutive pages, so that each run costs one seek.

use crate::free_pages::FreePagesbitmap;
use vstd::prelude::*;

verus! {

/// The size in bytes of a page in a memory file.
pub const PAGE_SIZE: u64 = 4096;

/// How many pages one batch holds: as many as fit in a buffer of 64 KiB.
pub const BATCH_SIZE: usize = 16;

/// A stretch of a memory file that is overwritten with zero pages.
#[derive(Debug, Clone, Copy, PartialEq, Eq, Structural)]
pub struct ZeroRun {
    /// Where in the file the stretch starts, in bytes.
    pub start_offset: u64,
    /// How many pages it covers.
    pub page_count: u64,
}

impl ZeroRun {
    /// The page numbers that the run covers, in order.
    pub open spec fn pages(self) -> Seq<int> {
        Seq::new(self.page_count as nat, |k: int| self.start_offset / PAGE_SIZE + k)
    }

    /// The offset just behind the run.
    pub open spec fn end(self) -> int {
        self.start_offset + self.page_count * PAGE_SIZE
    }

    /// The number of bytes that writing the run takes.
    pub fn total_bytes(&self) -> (bytes: u64)
        requires
            self.page_count * PAGE_SIZE <= u64::MAX,
        ensures
            bytes == self.page_count * PAGE_SIZE,
    {
        self.page_count * PAGE_SIZE
    }
}

/// The page numbers that a list of runs covers, in the order in which they are written.
pub open spec fn run_pages(runs: Seq<ZeroRun>) -> Seq<int>
    decreases runs.len(),
{
    if runs.len() == 0 {
        Seq::empty()
    } else {
        run_pages(runs.drop_last()) + runs.last().pages()
    }
}

/// `runs` writes exactly the pages of `pages`, in that order, and none of its runs could be
/// joined to the next.
pub open spec fn partitions(runs: Seq<ZeroRun>, pages: Seq<u32>) -> bool {
    &&& run_pages(runs) == pages.map_values(|p: u32| p as int)
    &&& forall|i: int|
        0 <= i < runs.len() ==> (#[trigger] runs[i]).page_count >= 1 && runs[i].start_offset
            % PAGE_SIZE == 0
    &&& forall|i: int, j: int|
        0 <= i < runs.len() && j == i + 1 && j < runs.len() ==> (#[trigger] runs[i]).end() != (
        #[trigger] runs[j]).start_offset
}

/// The order of page numbers.
pub open spec fn page_order() -> spec_fn(u32, u32) -> bool {
    |a: u32, b: u32| a <= b
}

/// The page numbers of `pages` in ascending order.
pub open spec fn ascending(pages: Seq<u32>) -> Seq<u32> {
    pages.sort_by(page_order())
}

/// The writes that zero one batch of pages.
#[derive(Debug)]
pub struct ZeroBatch {
    /// The stretches to overwrite, in the order in which they are written.
    pub runs: Vec<ZeroRun>,
    /// The number of pages in the batch.
    pub pages_processed: usize,
    /// The number of bytes that the batch writes.
    pub bytes_written: u64,
}

/// Sorts page numbers with `<[u32]>::sort_unstable`.
///
/// Trusted: the call rearranges the elements into ascending order and neither adds nor drops one.
#[verifier::external_body]
fn sort_pages(pages: &mut Vec<u32>)
    ensures
        final(pages)@.to_multiset() == old(pages)@.to_multiset(),
        vstd::relations::sorted_by(final(pages)@, page_order()),
{
    pages.sort_unstable();
}

/// Plans how to zero a batch of pages: the pages are sorted to minimise seeks, and consecutive
/// pages are joined into one run.
pub fn zero_pages_batch(page_numbers: &Vec<u32>) -> (batch: ZeroBatch)
    requires
        page_numbers@.len() * PAGE_SIZE <= u64::MAX,
    ensures
        partitions(batch.runs@, ascending(page_numbers@)),
        batch.pages_processed == page_numbers@.len(),
        batch.bytes_written == page_numbers@.len() * PAGE_SIZE,
{
    let mut sorted_pages: Vec<u32> = page_numbers.clone();
    sort_pages(&mut sorted_pages);
    proof {
        lemma_sorted_is_ascending(page_numbers@, sorted_pages@);
    }
    let mut runs: Vec<ZeroRun> = Vec::new();
    let mut bytes_written: u64 = 0;
    let mut current: Option<ZeroRun> = None;
    let mut i: usize = 0;
    proof {
        assert(sorted_pages@.take(0).map_values(|p: u32| p as int) =~= Seq::<int>::empty());
    }
    while i < sorted_pages.len()
        invariant
            0 <= i <= sorted_pages@.len(),
            sorted_pages@.len() * PAGE_SIZE <= u64::MAX,
            current is None <==> i == 0,
            i == 0 ==> runs@.len() == 0,
            i == 0 ==> bytes_written == 0,
            i > 0 ==> partitions(runs@.push(current->0), sorted_pages@.take(i as int)),
            i > 0 ==> bytes_written + current->0.page_count * PAGE_SIZE == i * PAGE_SIZE,
            i > 0 ==> current->0.end() == (sorted_pages@[i - 1] + 1) * PAGE_SIZE,
        decreases sorted_pages@.len() - i,
    {
        let page_num: u32 = sorted_pages[i];
        let page_offset: u64 = page_num as u64 * PAGE_SIZE;
        match current {
            Some(run) => {
                if page_offset == run.start_offset + run.page_count * PAGE_SIZE {
                    let longer = ZeroRun {
                        start_offset: run.start_offset,
                        page_count: run.page_count + 1,
                    };
                    proof {
                        lemma_extend_run(runs@, run, sorted_pages@, i as int);
                    }
                    current = Some(longer);
                } else {
                    let fresh = ZeroRun { start_offset: page_offset, page_count: 1 };
                    proof {
                        lemma_new_run(runs@.push(run), fresh, sorted_pages@, i as int);
                    }
                    bytes_written = bytes_written + run.total_bytes();
                    runs.push(run);
                    current = Some(fresh);
                }
            },
            None => {
                let fresh = ZeroRun { start_offset: page_offset, page_count: 1 };
                proof {
                    assert(sorted_pages@.take(0).map_values(|p: u32| p as int) =~= Seq::<
                        int,
                    >::empty());
                    lemma_new_run(runs@, fresh, sorted_pages@, i as int);
                }
                current = Some(fresh);
            },
        }
        i = i + 1;
    }
    if let Some(run) = current {
        bytes_written = bytes_written + run.total_bytes();
        runs.push(run);
    }
    proof {
        assert(sorted_pages@.take(sorted_pages@.len() as int) =~= sorted_pages@);
    }
    ZeroBatch { runs, pages_processed: page_numbers.len(), bytes_written }
}

/// The writes that zero all free pages of a memory file.
#[derive(Debug)]
pub struct ZeroPlan {
    /// The batches, in the order in which they are written.
    pub batches: Vec<ZeroBatch>,
    /// The number of pages in all batches.
    pub pages_zeroed: usize,
    /// The number of bytes that all batches write.
    pub bytes_zeroed: u64,
}

/// The runs of all batches, in the order in which they are written.
pub open spec fn flat_runs(batches: Seq<ZeroBatch>) -> Seq<ZeroRun>
    decreases batches.len(),
{
    if batches.len() == 0 {
        Seq::empty()
    } else {
        flat_runs(batches.drop_last()) + batches.last().runs@
    }
}

impl ZeroPlan {
    /// Returns the runs of all batches, in the order in which they are written.
    pub fn runs(&self) -> (runs: Vec<ZeroRun>)
        ensures
            runs@ == flat_runs(self.batches@),
    {
        let mut runs: Vec<ZeroRun> = Vec::new();
        let mut i: usize = 0;
        while i < self.batches.len()
            invariant
                0 <= i <= self.batches@.len(),
                runs@ == flat_runs(self.batches@.take(i as int)),
            decreases self.batches@.len() - i,
        {
            let batch: &Vec<ZeroRun> = &self.batches[i].runs;
            let ghost before = runs@;
            let mut k: usize = 0;
            while k < batch.len()
                invariant
                    0 <= k <= batch@.len(),
                    runs@ == before + batch@.take(k as int),
                decreases batch@.len() - k,
            {
                runs.push(batch[k]);
                assert(batch@.take(k + 1) =~= batch@.take(k as int).push(batch@[k as int]));
                k = k + 1;
            }
            proof {
                assert(batch@.take(k as int) =~= batch@);
                assert(self.batches@.take(i + 1).drop_last() =~= self.batches@.take(i as int));
            }
            i = i + 1;
        }
        assert(self.batches@.take(i as int) =~= self.batches@);
        runs
    }
}

/// The free pages with numbers below `n`, in ascending order.
pub open spec fn free_pages_below(bitmap: FreePagesbitmap, n: int) -> Seq<u32>
    decreases n,
{
    if n <= 0 {
        Seq::empty()
    } else if bitmap.marks(n - 1) {
        free_pages_below(bitmap, n - 1).push((n - 1) as u32)
    } else {
        free_pages_below(bitmap, n - 1)
    }
}

/// How many page numbers are looked at: one for each page of the guest, as far as a page frame
/// number of 32 bits reaches.
pub open spec fn page_limit(bitmap: FreePagesbitmap) -> int {
    if bitmap.total_pages <= u32::MAX {
        bitmap.total_pages as int
    } else {
        u32::MAX + 1
    }
}

/// The pages that are zeroed for a bitmap, in ascending order.
pub open spec fn pages_to_zero(bitmap: FreePagesbitmap) -> Seq<u32> {
    free_pages_below(bitmap, page_limit(bitmap))
}

/// The pages of the batch at index `i` when `pages` is cut into batches.
pub open spec fn batch_pages(pages: Seq<u32>, i: int) -> Seq<u32> {
    pages.subrange(
        i * BATCH_SIZE,
        if (i + 1) * BATCH_SIZE <= pages.len() {
            (i + 1) * BATCH_SIZE
        } else {
            pages.len() as int
        },
    )
}

/// `batch` zeroes exactly the pages of `pages`, in that order.
pub open spec fn batch_zeroes(batch: ZeroBatch, pages: Seq<u32>) -> bool {
    &&& partitions(batch.runs@, pages)
    &&& batch.pages_processed == pages.len()
    &&& batch.bytes_written == pages.len() * PAGE_SIZE
}

/// `batches` zeroes exactly the pages of `pages`, in that order, cut into full batches and a
/// last one that holds what is left.
pub open spec fn batches_zero(batches: Seq<ZeroBatch>, pages: Seq<u32>) -> bool {
    &&& batches.len() == (pages.len() + BATCH_SIZE - 1) / BATCH_SIZE as int
    &&& forall|i: int|
        0 <= i < batches.len() ==> batch_zeroes(#[trigger] batches[i], batch_pages(pages, i))
}

/// Plans the zeroing of the free pages of a memory file.
pub fn plan_zero_free_pages(bitmap: &FreePagesbitmap) -> (plan: ZeroPlan)
    requires
        page_limit(*bitmap) <= 8 * bitmap.bitmap@.len(),
        pages_to_zero(*bitmap).len() <= usize::MAX,
    ensures
        batches_zero(plan.batches@, pages_to_zero(*bitmap)),
        plan.pages_zeroed == pages_to_zero(*bitmap).len(),
        plan.bytes_zeroed == pages_to_zero(*bitmap).len() * PAGE_SIZE,
{
    let limit: u64 = if bitmap.total_pages <= u32::MAX as u64 {
        bitmap.total_pages
    } else {
        u32::MAX as u64 + 1
    };
    let mut batches: Vec<ZeroBatch> = Vec::new();
    let mut pages_zeroed: usize = 0;
    let mut bytes_zeroed: u64 = 0;
    let mut current_batch: Vec<u32> = Vec::new();
    let mut page_num: u64 = 0;
    while page_num < limit
        invariant
            0 <= page_num <= limit <= u32::MAX + 1,
            limit == page_limit(*bitmap),
            limit <= bitmap.total_pages,
            limit <= 8 * bitmap.bitmap@.len(),
            pages_to_zero(*bitmap).len() <= usize::MAX,
            current_batch@.len() < BATCH_SIZE,
            ({
                let pages = free_pages_below(*bitmap, page_num as int);
                &&& batches@.len() * BATCH_SIZE + current_batch@.len() == pages.len()
                &&& current_batch@ == pages.skip(batches@.len() * BATCH_SIZE)
                &&& forall|i: int|
                    0 <= i < batches@.len() ==> batch_zeroes(
                        #[trigger] batches@[i],
                        batch_pages(pages, i),
                    )
            }),
            pages_zeroed == batches@.len() * BATCH_SIZE,
            bytes_zeroed == pages_zeroed * PAGE_SIZE,
        decreases limit - page_num,
    {
        let ghost pages = free_pages_below(*bitmap, page_num as int);
        let ghost next = free_pages_below(*bitmap, page_num + 1);
        proof {
            lemma_free_pages_below(*bitmap, page_num + 1);
            lemma_free_pages_monotonic(*bitmap, page_num + 1, limit as int);
        }
        if bitmap.is_page_free(page_num as u32) {
            current_batch.push(page_num as u32);
            let ghost done = batches@.len() as int;
            proof {
                assert(next == pages.push(page_num as u32));
                assert(current_batch@ =~= next.skip(done * BATCH_SIZE));
                assert forall|i: int| 0 <= i < batches@.len() implies batch_zeroes(
                    #[trigger] batches@[i],
                    batch_pages(next, i),
                ) by {
                    assert(batch_pages(next, i) =~= batch_pages(pages, i));
                }
            }
            if current_batch.len() >= BATCH_SIZE {
                proof {
                    assert(current_batch@ =~= batch_pages(next, done));
                    lemma_increasing_is_ascending(current_batch@);
                }
                let batch = zero_pages_batch(&current_batch);
                pages_zeroed = pages_zeroed + batch.pages_processed;
                bytes_zeroed = bytes_zeroed + batch.bytes_written;
                batches.push(batch);
                current_batch.clear();
                proof {
                    assert(current_batch@ =~= next.skip(batches@.len() * BATCH_SIZE));
                }
            }
        }
        page_num = page_num + 1;
    }
    let ghost pages = pages_to_zero(*bitmap);
    if current_batch.len() > 0 {
        let ghost done = batches@.len() as int;
        proof {
            lemma_free_pages_below(*bitmap, limit as int);
            assert(current_batch@ =~= batch_pages(pages, done));
            lemma_increasing_is_ascending(current_batch@);
        }
        let batch = zero_pages_batch(&current_batch);
        pages_zeroed = pages_zeroed + batch.pages_processed;
        bytes_zeroed = bytes_zeroed + batch.bytes_written;
        batches.push(batch);
    }
    ZeroPlan { batches, pages_zeroed, bytes_zeroed }
}

/// The free pages below a limit are strictly ascending, and they are just the marked pages.
pub proof fn lemma_free_pages_below(bitmap: FreePagesbitmap, n: int)
    requires
        n <= u32::MAX + 1,
    ensures
        forall|i: int, j: int|
            0 <= i < j < free_pages_below(bitmap, n).len() ==> free_pages_below(bitmap, n)[i]
                < free_pages_below(bitmap, n)[j],
        forall|i: int|
            0 <= i < free_pages_below(bitmap, n).len() ==> (#[trigger] free_pages_below(
                bitmap,
                n,
            )[i]) < n,
        forall|p: u32| #[trigger]
            free_pages_below(bitmap, n).contains(p) <==> p < n && bitmap.marks(p as int),
        free_pages_below(bitmap, n).len() <= if n <= 0 {
            0
        } else {
            n
        },
    decreases n,
{
    if n > 0 {
        lemma_free_pages_below(bitmap, n - 1);
        let shorter = free_pages_below(bitmap, n - 1);
        let pages = free_pages_below(bitmap, n);
        assert forall|p: u32| #[trigger] pages.contains(p) <==> p < n && bitmap.marks(p as int) by {
            assert(shorter.contains(p) <==> p < n - 1 && bitmap.marks(p as int));
            if bitmap.marks(n - 1) {
                crate::free_pages::lemma_contains_push(shorter, (n - 1) as u32, p);
            }
        }
    }
}

/// For a bitmap that represents a set of pages, the pages to zero are that set: each member once.
pub proof fn law_pages_to_zero_are_the_set(bitmap: FreePagesbitmap, pages: Set<u32>)
    requires
        bitmap.represents(pages),
    ensures
        pages_to_zero(bitmap).to_set() == pages,
        pages_to_zero(bitmap).no_duplicates(),
        pages_to_zero(bitmap).len() == pages.len(),
{
    let list = pages_to_zero(bitmap);
    lemma_free_pages_below(bitmap, page_limit(bitmap));
    assert forall|p: u32| list.to_set().contains(p) <==> pages.contains(p) by {
        crate::free_pages::law_free_means_member(bitmap, pages, p);
        assert(list.to_set().contains(p) <==> list.contains(p));
    }
    assert(list.to_set() =~= pages);
    list.unique_seq_to_set();
}

/// A file after `count` zero bytes have been written at `offset`: a write behind the end of the
/// file fills the gap with zeros.
pub open spec fn zeros_written(file: Seq<u8>, offset: int, count: int) -> Seq<u8> {
    Seq::new(
        if offset + count <= file.len() {
            file.len()
        } else {
            (offset + count) as nat
        },
        |i: int|
            if offset <= i < offset + count || i >= file.len() {
                0u8
            } else {
                file[i]
            },
    )
}

/// A file after runs of zero pages have been written to it, one after the other.
pub open spec fn after_runs(file: Seq<u8>, runs: Seq<ZeroRun>) -> Seq<u8>
    decreases runs.len(),
{
    if runs.len() == 0 {
        file
    } else {
        zeros_written(
            after_runs(file, runs.drop_last()),
            runs.last().start_offset as int,
            runs.last().page_count * PAGE_SIZE,
        )
    }
}

/// A file after batches have been written to it, one after the other.
pub open spec fn after_batches(file: Seq<u8>, batches: Seq<ZeroBatch>) -> Seq<u8>
    decreases batches.len(),
{
    if batches.len() == 0 {
        file
    } else {
        after_runs(after_batches(file, batches.drop_last()), batches.last().runs@)
    }
}

/// `runs` is what a plan for the guest pages `pages`, all of them below `total`, writes.
pub open spec fn planned_runs(runs: Seq<ZeroRun>, pages: Set<u32>, total: int) -> bool {
    exists|bitmap: FreePagesbitmap, batches: Seq<ZeroBatch>|
        {
            &&& bitmap.represents(pages)
            &&& bitmap.total_pages == total
            &&& #[trigger] batches_zero(batches, pages_to_zero(bitmap))
            &&& runs == flat_runs(batches)
        }
}

/// `out` is `file` with the pages of `pages` zeroed and every other byte as it was. It is longer
/// than `file` only as far as a zeroed page reaches.
pub open spec fn zeroed_copy(out: Seq<u8>, file: Seq<u8>, pages: Set<int>) -> bool {
    &&& out.len() >= file.len()
    &&& forall|i: int|
        0 <= i < out.len() ==> #[trigger] out[i] == if pages.contains(i / PAGE_SIZE as int) || i
            >= file.len() {
            0u8
        } else {
            file[i]
        }
    &&& forall|p: int| #[trigger]
        pages.contains(p) ==> 0 <= p && (p + 1) * PAGE_SIZE <= out.len()
    &&& out.len() == file.len() || exists|p: int| #[trigger]
        pages.contains(p) && out.len() == (p + 1) * PAGE_SIZE
}

/// Writing a plan zeroes exactly the free pages: every byte of a free page becomes zero, and
/// every byte of another page stays as it was.
pub proof fn law_plan_zeroes_free_pages(
    bitmap: FreePagesbitmap,
    batches: Seq<ZeroBatch>,
    file: Seq<u8>,
)
    requires
        batches_zero(batches, pages_to_zero(bitmap)),
    ensures
        zeroed_copy(
            after_batches(file, batches),
            file,
            Set::new(|p: int| 0 <= p <= u32::MAX && bitmap.marks(p)),
        ),
{
    let pages = pages_to_zero(bitmap);
    let free = Set::new(|p: int| 0 <= p <= u32::MAX && bitmap.marks(p));
    let all = pages.take(covered(pages, batches.len() as int));
    lemma_free_pages_below(bitmap, page_limit(bitmap));
    lemma_after_batches(file, batches, pages, batches.len() as int);
    assert(batches.take(batches.len() as int) =~= batches);
    assert(all =~= pages);
    assert(page_set(all) =~= free) by {
        assert forall|p: int| page_set(all).contains(p) <==> free.contains(p) by {
            if free.contains(p) {
                assert(pages.contains(p as u32));
            }
        }
    }
}

/// Writing the runs planned for a set of pages zeroes exactly those pages of the file.
pub proof fn law_planned_runs_zero_the_set(
    runs: Seq<ZeroRun>,
    pages: Set<u32>,
    total: int,
    file: Seq<u8>,
)
    requires
        planned_runs(runs, pages, total),
    ensures
        zeroed_copy(
            after_runs(file, runs),
            file,
            Set::new(|p: int| 0 <= p <= u32::MAX && pages.contains(p as u32)),
        ),
{
    let (bitmap, batches) = choose|bitmap: FreePagesbitmap, batches: Seq<ZeroBatch>|
        {
            &&& bitmap.represents(pages)
            &&& bitmap.total_pages == total
            &&& #[trigger] batches_zero(batches, pages_to_zero(bitmap))
            &&& runs == flat_runs(batches)
        };
    law_plan_zeroes_free_pages(bitmap, batches, file);
    lemma_flat_runs(file, batches);
    let marked = Set::new(|p: int| 0 <= p <= u32::MAX && bitmap.marks(p));
    let wanted = Set::new(|p: int| 0 <= p <= u32::MAX && pages.contains(p as u32));
    assert(marked =~= wanted) by {
        assert forall|p: int| marked.contains(p) <==> wanted.contains(p) by {
            if 0 <= p <= u32::MAX {
                crate::free_pages::law_free_means_member(bitmap, pages, p as u32);
            }
        }
    }
}

/// Batches that zero a page hold at least one run.
pub proof fn lemma_flat_runs_nonempty(batches: Seq<ZeroBatch>, pages: Seq<u32>)
    requires
        batches_zero(batches, pages),
        pages.len() > 0,
    ensures
        flat_runs(batches).len() > 0,
{
    let last = batches.len() - 1;
    let part = batch_pages(pages, last);
    assert(batch_zeroes(batches[last], part));
    assert(part.len() > 0);
    assert(part.map_values(|p: u32| p as int).len() > 0);
    assert(batches[last].runs@.len() > 0);
}

proof fn lemma_flat_runs(file: Seq<u8>, batches: Seq<ZeroBatch>)
    ensures
        after_runs(file, flat_runs(batches)) == after_batches(file, batches),
    decreases batches.len(),
{
    if batches.len() > 0 {
        let shorter = batches.drop_last();
        lemma_flat_runs(file, shorter);
        lemma_after_runs_add(file, flat_runs(shorter), batches.last().runs@);
    }
}

proof fn lemma_after_runs_add(file: Seq<u8>, first: Seq<ZeroRun>, second: Seq<ZeroRun>)
    ensures
        after_runs(file, first + second) == after_runs(after_runs(file, first), second),
    decreases second.len(),
{
    let all = first + second;
    if second.len() == 0 {
        assert(all =~= first);
    } else {
        assert(all.drop_last() =~= first + second.drop_last());
        lemma_after_runs_add(file, first, second.drop_last());
    }
}

/// Where a plan covers only pages that lie in the file, the file keeps its length.
pub proof fn law_zeroing_keeps_length(out: Seq<u8>, file: Seq<u8>, pages: Set<int>)
    requires
        zeroed_copy(out, file, pages),
        forall|p: int| #[trigger] pages.contains(p) ==> (p + 1) * PAGE_SIZE <= file.len(),
    ensures
        out.len() == file.len(),
{
}

spec fn page_set(pages: Seq<u32>) -> Set<int> {
    Set::new(|p: int| 0 <= p <= u32::MAX && pages.contains(p as u32))
}

/// How many pages the first `n` batches hold.
spec fn covered(pages: Seq<u32>, n: int) -> int {
    if n * BATCH_SIZE <= pages.len() {
        n * BATCH_SIZE
    } else {
        pages.len() as int
    }
}

proof fn lemma_after_batches(file: Seq<u8>, batches: Seq<ZeroBatch>, pages: Seq<u32>, n: int)
    requires
        batches_zero(batches, pages),
        0 <= n <= batches.len(),
    ensures
        zeroed_copy(
            after_batches(file, batches.take(n)),
            file,
            page_set(pages.take(covered(pages, n))),
        ),
    decreases n,
{
    let done = pages.take(covered(pages, n));
    if n == 0 {
        assert(page_set(done) =~= Set::empty());
    } else {
        let before = pages.take(covered(pages, n - 1));
        let part = batch_pages(pages, n - 1);
        lemma_after_batches(file, batches, pages, n - 1);
        assert(batches.take(n).drop_last() =~= batches.take(n - 1));
        let middle = after_batches(file, batches.take(n - 1));
        let batch = batches[n - 1];
        assert(batch_zeroes(batch, part));
        lemma_after_runs(middle, batch.runs@);
        let out = after_runs(middle, batch.runs@);
        assert(run_pages(batch.runs@).to_set() =~= page_set(part)) by {
            let ints = part.map_values(|p: u32| p as int);
            assert forall|p: int| run_pages(batch.runs@).to_set().contains(p) <==> page_set(
                part,
            ).contains(p) by {
                if page_set(part).contains(p) {
                    let k = choose|k: int| 0 <= k < part.len() && part[k] == p as u32;
                    assert(ints[k] == p);
                }
                if ints.contains(p) {
                    let k = choose|k: int| 0 <= k < ints.len() && ints[k] == p;
                    assert(part[k] == p as u32);
                }
            }
        }
        assert(done =~= before + part);
        assert(page_set(done) =~= page_set(before).union(page_set(part))) by {
            assert forall|p: int| page_set(done).contains(p) <==> page_set(before).union(
                page_set(part),
            ).contains(p) by {
                lemma_contains_add(before, part, p as u32);
            }
        }
        lemma_zeroed_copy_twice(file, middle, out, page_set(before), page_set(part));
    }
}

proof fn lemma_contains_add<T>(a: Seq<T>, b: Seq<T>, x: T)
    ensures
        (a + b).contains(x) <==> a.contains(x) || b.contains(x),
{
    if a.contains(x) {
        let i = choose|i: int| 0 <= i < a.len() && a[i] == x;
        assert((a + b)[i] == x);
    }
    if b.contains(x) {
        let i = choose|i: int| 0 <= i < b.len() && b[i] == x;
        assert((a + b)[a.len() + i] == x);
    }
}

proof fn lemma_zeroed_copy_twice(
    file: Seq<u8>,
    middle: Seq<u8>,
    out: Seq<u8>,
    first: Set<int>,
    second: Set<int>,
)
    requires
        zeroed_copy(middle, file, first),
        zeroed_copy(out, middle, second),
    ensures
        zeroed_copy(out, file, first.union(second)),
{
    let both = first.union(second);
    assert forall|i: int| 0 <= i < out.len() implies #[trigger] out[i] == if both.contains(
        i / PAGE_SIZE as int,
    ) || i >= file.len() {
        0u8
    } else {
        file[i]
    } by {
        if i < middle.len() {
            assert(middle[i] == if first.contains(i / PAGE_SIZE as int) || i >= file.len() {
                0u8
            } else {
                file[i]
            });
        }
    }
    if out.len() != file.len() {
        if out.len() != middle.len() {
            let p = choose|p: int| #[trigger]
                second.contains(p) && out.len() == (p + 1) * PAGE_SIZE;
            assert(both.contains(p));
        } else {
            let p = choose|p: int| #[trigger]
                first.contains(p) && middle.len() == (p + 1) * PAGE_SIZE;
            assert(both.contains(p));
        }
    }
}

proof fn lemma_after_runs(file: Seq<u8>, runs: Seq<ZeroRun>)
    requires
        forall|i: int|
            0 <= i < runs.len() ==> (#[trigger] runs[i]).page_count >= 1 && runs[i].start_offset
                % PAGE_SIZE == 0,
    ensures
        zeroed_copy(after_runs(file, runs), file, run_pages(runs).to_set()),
    decreases runs.len(),
{
    if runs.len() == 0 {
        assert(run_pages(runs).to_set() =~= Set::empty());
    } else {
        let shorter = runs.drop_last();
        let run = runs.last();
        assert forall|i: int| 0 <= i < shorter.len() implies (#[trigger] shorter[i]).page_count >= 1
            && shorter[i].start_offset % PAGE_SIZE == 0 by {
            assert(shorter[i] == runs[i]);
        }
        lemma_after_runs(file, shorter);
        let middle = after_runs(file, shorter);
        let out = after_runs(file, runs);
        assert(runs[runs.len() - 1] == run);
        lemma_after_run(middle, run);
        assert(run_pages(runs).to_set() =~= run_pages(shorter).to_set().union(run.pages().to_set()))
            by {
            assert forall|p: int| run_pages(runs).to_set().contains(p) <==> run_pages(
                shorter,
            ).to_set().union(run.pages().to_set()).contains(p) by {
                lemma_contains_add(run_pages(shorter), run.pages(), p);
            }
        }
        lemma_zeroed_copy_twice(
            file,
            middle,
            out,
            run_pages(shorter).to_set(),
            run.pages().to_set(),
        );
    }
}

proof fn lemma_after_run(file: Seq<u8>, run: ZeroRun)
    requires
        run.page_count >= 1,
        run.start_offset % PAGE_SIZE == 0,
    ensures
        zeroed_copy(
            zeros_written(file, run.start_offset as int, run.page_count * PAGE_SIZE),
            file,
            run.pages().to_set(),
        ),
{
    let out = zeros_written(file, run.start_offset as int, run.page_count * PAGE_SIZE);
    let pages = run.pages().to_set();
    let first = run.start_offset / PAGE_SIZE;
    assert forall|p: int| #[trigger] pages.contains(p) <==> first <= p < first
        + run.page_count by {
        if first <= p < first + run.page_count {
            assert(run.pages()[p - first] == p);
        }
    }
    assert forall|i: int| 0 <= i < out.len() implies #[trigger] out[i] == if pages.contains(
        i / PAGE_SIZE as int,
    ) || i >= file.len() {
        0u8
    } else {
        file[i]
    } by {
        assert(pages.contains(i / PAGE_SIZE as int) <==> run.start_offset <= i < run.end());
    }
    if out.len() != file.len() {
        assert(pages.contains(first + run.page_count - 1));
    }
}

proof fn lemma_free_pages_monotonic(bitmap: FreePagesbitmap, m: int, n: int)
    requires
        m <= n,
    ensures
        free_pages_below(bitmap, m).len() <= free_pages_below(bitmap, n).len(),
    decreases n - m,
{
    if m < n {
        lemma_free_pages_monotonic(bitmap, m, n - 1);
    }
}

proof fn lemma_increasing_is_ascending(pages: Seq<u32>)
    requires
        forall|i: int, j: int| 0 <= i < j < pages.len() ==> pages[i] < pages[j],
    ensures
        ascending(pages) == pages,
{
    lemma_sorted_is_ascending(pages, pages);
}

proof fn lemma_sorted_is_ascending(pages: Seq<u32>, sorted: Seq<u32>)
    requires
        sorted.to_multiset() == pages.to_multiset(),
        vstd::relations::sorted_by(sorted, page_order()),
    ensures
        sorted == ascending(pages),
        sorted.len() == pages.len(),
{
    pages.lemma_sort_by_ensures(page_order());
    vstd::seq_lib::lemma_sorted_unique(sorted, ascending(pages), page_order());
    broadcast use vstd::seq_lib::group_to_multiset_ensures;
    assert(sorted.to_multiset().len() == sorted.len());
    assert(pages.to_multiset().len() == pages.len());
}

proof fn lemma_map_take(pages: Seq<u32>, i: int)
    requires
        0 <= i < pages.len(),
    ensures
        pages.take(i + 1).map_values(|p: u32| p as int) == pages.take(i).map_values(
            |p: u32| p as int,
        ).push(pages[i] as int),
{
    assert(pages.take(i + 1).map_values(|p: u32| p as int) =~= pages.take(i).map_values(
        |p: u32| p as int,
    ).push(pages[i] as int));
}

/// The page at index `i` lies just behind the last run, which takes it in.
proof fn lemma_extend_run(runs: Seq<ZeroRun>, run: ZeroRun, pages: Seq<u32>, i: int)
    requires
        0 <= i < pages.len(),
        partitions(runs.push(run), pages.take(i)),
        pages[i] * PAGE_SIZE == run.end(),
        run.page_count < u64::MAX,
    ensures
        partitions(
            runs.push(
                ZeroRun {
                    start_offset: run.start_offset,
                    page_count: (run.page_count + 1) as u64,
                },
            ),
            pages.take(i + 1),
        ),
{
    let longer = ZeroRun {
        start_offset: run.start_offset,
        page_count: (run.page_count + 1) as u64,
    };
    let old_runs = runs.push(run);
    let new_runs = runs.push(longer);
    assert(old_runs[runs.len() as int] == run);
    lemma_map_take(pages, i);
    assert(old_runs.drop_last() =~= runs);
    assert(new_runs.drop_last() =~= runs);
    assert(longer.pages() =~= run.pages().push(pages[i] as int));
    assert(run_pages(new_runs) =~= run_pages(old_runs).push(pages[i] as int));
    assert forall|j: int| 0 <= j < new_runs.len() implies (#[trigger] new_runs[j]).page_count >= 1
        && new_runs[j].start_offset % PAGE_SIZE == 0 by {
        assert(old_runs[j].page_count >= 1 && old_runs[j].start_offset % PAGE_SIZE == 0);
    }
    assert forall|j: int, k: int|
        0 <= j < new_runs.len() && k == j + 1 && k < new_runs.len() implies (
    #[trigger] new_runs[j]).end() != (#[trigger] new_runs[k]).start_offset by {
        assert(old_runs[j].end() != old_runs[k].start_offset);
    }
}

/// The page at index `i` does not lie just behind the last run and starts a run of its own.
proof fn lemma_new_run(runs: Seq<ZeroRun>, fresh: ZeroRun, pages: Seq<u32>, i: int)
    requires
        0 <= i < pages.len(),
        partitions(runs, pages.take(i)),
        fresh.start_offset == pages[i] * PAGE_SIZE,
        fresh.page_count == 1,
        runs.len() > 0 ==> runs.last().end() != fresh.start_offset,
    ensures
        partitions(runs.push(fresh), pages.take(i + 1)),
{
    let new_runs = runs.push(fresh);
    lemma_map_take(pages, i);
    assert(new_runs.drop_last() =~= runs);
    assert(fresh.pages() =~= seq![pages[i] as int]);
    assert(run_pages(new_runs) =~= run_pages(runs).push(pages[i] as int));
    assert forall|j: int, k: int|
        0 <= j < new_runs.len() && k == j + 1 && k < new_runs.len() implies (
    #[trigger] new_runs[j]).end() != (#[trigger] new_runs[k]).start_offset by {
        if k < runs.len() {
            assert(runs[j].end() != runs[k].start_offset);
        }
    }
}

/// Pages are written in ascending order: sorting puts a smaller page before a larger one, and
/// neither adds nor drops a page.
pub proof fn law_pages_are_sorted(pages: Seq<u32>)
    ensures
        ascending(pages).to_multiset() == pages.to_multiset(),
        ascending(pages).len() == pages.len(),
        forall|i: int, j: int|
            0 <= i < j < ascending(pages).len() ==> #[trigger] ascending(pages)[i]
                <= #[trigger] ascending(pages)[j],
{
    pages.lemma_sort_by_ensures(page_order());
    lemma_sorted_is_ascending(pages, ascending(pages));
    assert forall|i: int, j: int|
        0 <= i < j < ascending(pages).len() implies #[trigger] ascending(pages)[i]
        <= #[trigger] ascending(pages)[j] by {
        assert(page_order()(ascending(pages)[i], ascending(pages)[j]));
    }
}

/// Whether a byte lies in one of the pages of 4096 bytes with these numbers.
pub open spec fn lies_in(byte: int, pages: Seq<u32>) -> bool {
    exists|k: int| 0 <= k < pages.len() && #[trigger] pages[k] * 4096 <= byte < pages[k] * 4096
        + 4096
}

/// The runs of a batch zero just its pages: a byte of the file becomes zero where it lies in one of
/// them, and stays as it was otherwise. Each run starts at a page, has a page at least, and is not
/// followed by one that starts where it ends, so that it costs one seek.
pub proof fn law_batch_zeroes_just_its_pages(
    runs: Seq<ZeroRun>,
    pages: Seq<u32>,
    file: Seq<u8>,
)
    requires
        partitions(runs, ascending(pages)),
    ensures
        after_runs(file, runs).len() >= file.len(),
        forall|i: int|
            0 <= i < file.len() ==> #[trigger] after_runs(file, runs)[i] == if lies_in(i, pages) {
                0
            } else {
                file[i]
            },
        forall|i: int|
            0 <= i < runs.len() ==> (#[trigger] runs[i]).page_count >= 1
                && runs[i].start_offset as int % 4096 == 0,
        forall|i: int, j: int|
            0 <= i < runs.len() && j == i + 1 && j < runs.len() ==> (
            #[trigger] runs[i]).start_offset + runs[i].page_count * 4096 != (
            #[trigger] runs[j]).start_offset,
{
    let sorted = ascending(pages);
    let ints = sorted.map_values(|p: u32| p as int);
    lemma_after_runs(file, runs);
    law_pages_are_sorted(pages);
    assert forall|i: int| 0 <= i < file.len() implies #[trigger] after_runs(file, runs)[i]
        == if lies_in(i, pages) {
        0
    } else {
        file[i]
    } by {
        let p = i / 4096;
        broadcast use vstd::seq_lib::group_to_multiset_ensures;

        if ints.contains(p) {
            let k = choose|k: int| 0 <= k < ints.len() && ints[k] == p;
            assert(sorted.contains(sorted[k]));
            assert(pages.to_multiset().count(sorted[k]) > 0);
            let m = choose|m: int| 0 <= m < pages.len() && pages[m] == sorted[k];
            assert(pages[m] * 4096 <= i < pages[m] * 4096 + 4096);
        }
        if lies_in(i, pages) {
            let m = choose|m: int|
                0 <= m < pages.len() && #[trigger] pages[m] * 4096 <= i < pages[m] * 4096 + 4096;
            assert(pages[m] == p);
            assert(pages.contains(pages[m]));
            assert(sorted.to_multiset().count(pages[m]) > 0);
            let k = choose|k: int| 0 <= k < sorted.len() && sorted[k] == pages[m];
            assert(ints[k] == p);
        }
        assert(run_pages(runs).to_set().contains(p) <==> ints.contains(p));
    }
    assert forall|i: int, j: int|
        0 <= i < runs.len() && j == i + 1 && j < runs.len() implies (
    #[trigger] runs[i]).start_offset + runs[i].page_count * 4096 != (
    #[trigger] runs[j]).start_offset by {
        assert(runs[i].end() != runs[j].start_offset);
    }
}

/// A plan cuts its pages into batches of 16, which make 64 KiB, and a last one of what is left: the
/// batches hold all pages, one after the other, and each counts its pages and their bytes.
pub proof fn law_batches_hold_all_pages(batches: Seq<ZeroBatch>, pages: Seq<u32>)
    requires
        batches_zero(batches, pages),
    ensures
        pages.len() == 0 <==> batches.len() == 0,
        pages.len() > 0 ==> (batches.len() - 1) * 16 < pages.len() <= batches.len() * 16,
        forall|i: int|
            0 <= i < batches.len() ==> {
                let batch = #[trigger] batches[i];
                &&& batch.pages_processed == if i + 1 < batches.len() {
                    16
                } else {
                    pages.len() - i * 16
                }
                &&& batch.bytes_written == batch.pages_processed * 4096
                &&& run_pages(batch.runs@).len() == batch.pages_processed
                &&& forall|k: int|
                    0 <= k < batch.pages_processed ==> #[trigger] run_pages(batch.runs@)[k]
                        == pages[i * 16 + k]
            },
{
    assert forall|i: int| 0 <= i < batches.len() implies {
        let batch = #[trigger] batches[i];
        &&& batch.pages_processed == if i + 1 < batches.len() {
            16
        } else {
            pages.len() - i * 16
        }
        &&& batch.bytes_written == batch.pages_processed * 4096
        &&& run_pages(batch.runs@).len() == batch.pages_processed
        &&& forall|k: int|
            0 <= k < batch.pages_processed ==> #[trigger] run_pages(batch.runs@)[k] == pages[i * 16
                + k]
    } by {
        assert(batch_zeroes(batches[i], batch_pages(pages, i)));
    }
}

/// The pages of a run follow one another from where it starts.
pub proof fn law_run_has_consecutive_pages(run: ZeroRun, k: int)
    requires
        run.start_offset as int % 4096 == 0,
        0 <= k < run.page_count,
    ensures
        run.pages().len() == run.page_count,
        run.pages()[k] * 4096 == run.start_offset + k * 4096,
        run_pages(seq![run]) == run.pages(),
{
    assert(seq![run].drop_last() =~= Seq::empty());
    assert(run_pages(seq![run].drop_last()) == Seq::<int>::empty());
    assert(run_pages(seq![run]) =~= run.pages());
}

/// A plan zeroes just the pages that the bitmap marks: a byte of the file becomes zero where the
/// page that it lies in is below the total, has a number of 32 bits, and has its bit set; any other
/// byte stays as it was. The plan counts these pages once each, and their bytes.
pub proof fn law_plan_zeroes_just_marked_pages(
    bitmap: FreePagesbitmap,
    batches: Seq<ZeroBatch>,
    file: Seq<u8>,
)
    requires
        batches_zero(batches, pages_to_zero(bitmap)),
    ensures
        after_batches(file, batches).len() >= file.len(),
        forall|i: int|
            0 <= i < file.len() ==> #[trigger] after_batches(file, batches)[i] == if i / 4096
                < bitmap.total_pages && i / 4096 <= u32::MAX && (bitmap.bitmap@[i / 4096 / 8] & (1u8
                << ((i / 4096 % 8) as u8))) != 0 {
                0
            } else {
                file[i]
            },
        pages_to_zero(bitmap).no_duplicates(),
        forall|page: u32| #[trigger]
            pages_to_zero(bitmap).contains(page) <==> page < bitmap.total_pages && (
            bitmap.bitmap@[page as int / 8] & (1u8 << ((page % 8) as u8))) != 0,
{
    law_plan_zeroes_free_pages(bitmap, batches, file);
    lemma_free_pages_below(bitmap, page_limit(bitmap));
    assert forall|page: u32| #[trigger] pages_to_zero(bitmap).contains(page) <==> page
        < bitmap.total_pages && (bitmap.bitmap@[page as int / 8] & (1u8 << ((page % 8) as u8)))
        != 0 by {
        crate::free_pages::law_marked_means_bit_is_set(bitmap, page);
    }
}

} // verus!
