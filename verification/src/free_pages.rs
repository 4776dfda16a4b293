//! Free pages bitmap management for snapshot memory zeroing.
//!
//! The bitmap records the guest pages that a balloon device has inflated and that the guest
//! therefore considers free. One bit stands for one page.

use std::collections::HashSet;
use vstd::prelude::*;

verus! {

broadcast use vstd::std_specs::hash::group_hash_axioms;

/// Error type for free pages bitmap operations.
#[derive(Debug, Clone, Copy, PartialEq, Eq, Structural)]
pub enum FreePagesError {
    /// Invalid page frame number: the first field exceeds the total pages in the second.
    InvalidPageNumber(u32, u64),
}

/// Whether bit `k` of byte `b` is set.
pub open spec fn byte_bit(b: u8, k: int) -> bool {
    (b & (1u8 << (k as u8))) != 0
}

/// Whether bit `p` of a bitmap is set, counting from the least significant bit of byte 0.
pub open spec fn bit_is_set(bitmap: Seq<u8>, p: int) -> bool {
    byte_bit(bitmap[p / 8], p % 8)
}

/// The positions of the set bits among the first `n` bits of a bitmap.
pub open spec fn set_bits(bitmap: Seq<u8>, n: int) -> Set<int> {
    Set::new(|p: int| 0 <= p < n && bit_is_set(bitmap, p))
}

/// Memory-efficient bitmap for tracking free pages using bit vectors.
#[derive(Debug)]
pub struct FreePagesbitmap {
    /// Bitmap where each bit represents whether a page is free (1) or not (0).
    pub bitmap: Vec<u8>,
    /// Total number of memory pages in the guest.
    pub total_pages: u64,
    /// Page size in bytes (typically 4096).
    pub page_size: u32,
}

impl FreePagesbitmap {
    /// The page numbers whose bits are set.
    pub open spec fn marked_pages(self) -> Set<int> {
        set_bits(self.bitmap@, 8 * self.bitmap@.len() as int)
    }

    /// Whether `page` is below the page total and its bit is set.
    pub open spec fn marks(self, page: int) -> bool {
        &&& 0 <= page < self.total_pages
        &&& bit_is_set(self.bitmap@, page)
    }

    /// Every page below the total has a bit, and no bit at or above the total is set.
    pub open spec fn well_formed(self) -> bool {
        &&& self.bitmap@.len() == (self.total_pages + 7) / 8
        &&& forall|p: int|
            self.total_pages <= p < 8 * self.bitmap@.len() ==> !#[trigger] bit_is_set(
                self.bitmap@,
                p,
            )
    }

    /// The bitmap is well formed and marks exactly the pages of `pages`.
    pub open spec fn represents(self, pages: Set<u32>) -> bool {
        &&& self.well_formed()
        &&& forall|p: int| #[trigger]
            self.marked_pages().contains(p) <==> 0 <= p <= u32::MAX && pages.contains(p as u32)
    }

    /// Creates a new free pages bitmap from a set of page numbers.
    ///
    /// A page number at or above `total_pages` is refused. Where several are, which one the error
    /// names depends on the order in which the set is walked.
    pub fn new(free_pages: &HashSet<u32>, total_pages: u64, page_size: u32) -> (res: Result<
        Self,
        FreePagesError,
    >)
        requires
            total_pages + 7 <= u64::MAX,
            (total_pages + 7) / 8 <= usize::MAX,
        ensures
            match res {
                Ok(bitmap) => {
                    &&& bitmap.represents(free_pages@)
                    &&& bitmap.total_pages == total_pages
                    &&& bitmap.page_size == page_size
                    &&& forall|p: u32| free_pages@.contains(p) ==> p < total_pages
                    &&& bitmap.marked_pages().finite()
                    &&& bitmap.marked_pages().len() == free_pages@.len()
                },
                Err(FreePagesError::InvalidPageNumber(page, total)) => {
                    &&& free_pages@.contains(page)
                    &&& page >= total_pages
                    &&& total == total_pages
                },
            },
    {
        let bitmap_bytes: usize = ((total_pages + 7) / 8) as usize;
        let mut bitmap: Vec<u8> = vec![0u8; bitmap_bytes];
        proof {
            assert forall|p: int| 0 <= p < 8 * bitmap@.len() implies !#[trigger] bit_is_set(
                bitmap@,
                p,
            ) by {
                let k = (p % 8) as u8;
                assert(bitmap@[p / 8] == 0u8);
                assert(0u8 & (1u8 << k) == 0u8) by (bit_vector);
            }
        }
        let ghost mut seen: Set<u32> = Set::empty();
        for page_ref in it: free_pages.iter()
            invariant
                bitmap@.len() == (total_pages + 7) / 8,
                it.seq().unref().to_set() == free_pages@,
                seen == it.seq().unref().take(it.index()).to_set(),
                it.index() == it.seq().len() ==> seen == free_pages@,
                forall|p: u32| seen.contains(p) ==> p < total_pages,
                forall|p: int|
                    0 <= p < 8 * bitmap@.len() ==> (#[trigger] bit_is_set(bitmap@, p) <==> p
                        <= u32::MAX && seen.contains(p as u32)),
        {
            let page_num: u32 = *page_ref;
            let ghost pages = it.seq().unref();
            let ghost index = it.index();
            proof {
                assert(pages[index] == page_num);
                assert(pages.to_set().contains(page_num));
            }
            if page_num as u64 >= total_pages {
                return Err(FreePagesError::InvalidPageNumber(page_num, total_pages));
            }
            let byte_idx: usize = (page_num / 8) as usize;
            let bit_idx: u32 = page_num % 8;
            let ghost before = bitmap@;
            let byte: u8 = bitmap[byte_idx];
            bitmap[byte_idx] = byte | (1u8 << bit_idx);
            proof {
                let earlier = seen;
                seen = seen.insert(page_num);
                assert(pages.take(index + 1) =~= pages.take(index).push(page_num));
                assert(seen =~= pages.take(index + 1).to_set()) by {
                    assert forall|p: u32| seen.contains(p) <==> pages.take(
                        index + 1,
                    ).to_set().contains(p) by {
                        lemma_contains_push(pages.take(index), page_num, p);
                    }
                }
                assert(index + 1 == pages.len() ==> pages.take(index + 1) =~= pages);
                assert forall|p: int| 0 <= p < 8 * bitmap@.len() implies (#[trigger] bit_is_set(
                    bitmap@,
                    p,
                ) <==> p <= u32::MAX && seen.contains(p as u32)) by {
                    assert(bit_is_set(before, p) <==> p <= u32::MAX && earlier.contains(p as u32));
                    lemma_set_bit(byte, bit_idx, (p % 8) as u8);
                }
            }
        }
        let res = Self { bitmap, total_pages, page_size };
        proof {
            law_marked_count_is_set_size(res, free_pages@);
        }
        Ok(res)
    }

    /// Returns the number of free pages by counting set bits.
    ///
    /// Every set bit counts, whatever the page total says.
    pub fn free_page_count(&self) -> (count: usize)
        requires
            self.marked_pages().len() <= usize::MAX,
        ensures
            count == self.marked_pages().len(),
    {
        let mut count: usize = 0;
        let mut i: usize = 0;
        proof {
            lemma_set_bits_count(self.bitmap@, 0);
            lemma_set_bits_count(self.bitmap@, 8 * self.bitmap@.len() as int);
        }
        while i < self.bitmap.len()
            invariant
                0 <= i <= self.bitmap@.len(),
                count == bit_count(self.bitmap@, 8 * i as int),
                bit_count(self.bitmap@, 8 * self.bitmap@.len() as int) <= usize::MAX,
            decreases self.bitmap@.len() - i,
        {
            let byte: u8 = self.bitmap[i];
            let mut k: u8 = 0;
            while k < 8
                invariant
                    0 <= k <= 8,
                    0 <= i < self.bitmap@.len(),
                    byte == self.bitmap@[i as int],
                    count == bit_count(self.bitmap@, 8 * i + k),
                    bit_count(self.bitmap@, 8 * self.bitmap@.len() as int) <= usize::MAX,
                decreases 8 - k,
            {
                proof {
                    let p = 8 * i + k;
                    assert(p / 8 == i && p % 8 == k);
                    lemma_bit_count_monotonic(
                        self.bitmap@,
                        p + 1,
                        8 * self.bitmap@.len() as int,
                    );
                }
                if (byte & (1u8 << k)) != 0 {
                    count = count + 1;
                }
                k = k + 1;
            }
            i = i + 1;
        }
        count
    }

    /// Checks if a page is marked as free.
    pub fn is_page_free(&self, page_frame_number: u32) -> (free: bool)
        requires
            page_frame_number < self.total_pages ==> page_frame_number / 8 < self.bitmap@.len(),
        ensures
            free == self.marks(page_frame_number as int),
    {
        if page_frame_number as u64 >= self.total_pages {
            return false;
        }
        let byte_idx: usize = (page_frame_number / 8) as usize;
        let bit_idx: u8 = (page_frame_number % 8) as u8;
        (self.bitmap[byte_idx] & (1u8 << bit_idx)) != 0
    }
}

/// Creates a free pages bitmap from balloon device inflated pages.
///
/// This is used for memory zeroing during snapshot creation.
pub fn create_free_pages_bitmap(
    inflated_pages: &HashSet<u32>,
    total_memory_pages: u64,
    page_size: u32,
) -> (res: Result<FreePagesbitmap, FreePagesError>)
    requires
        total_memory_pages + 7 <= u64::MAX,
        (total_memory_pages + 7) / 8 <= usize::MAX,
    ensures
        match res {
            Ok(bitmap) => {
                &&& bitmap.represents(inflated_pages@)
                &&& bitmap.total_pages == total_memory_pages
                &&& bitmap.page_size == page_size
                &&& forall|p: u32| inflated_pages@.contains(p) ==> p < total_memory_pages
                &&& bitmap.marked_pages().finite()
                &&& bitmap.marked_pages().len() == inflated_pages@.len()
            },
            Err(FreePagesError::InvalidPageNumber(page, total)) => {
                &&& inflated_pages@.contains(page)
                &&& page >= total_memory_pages
                &&& total == total_memory_pages
            },
        },
{
    FreePagesbitmap::new(inflated_pages, total_memory_pages, page_size)
}

/// A bitmap that represents a set answers membership: a page is free exactly if it is in the set.
pub proof fn law_free_means_member(bitmap: FreePagesbitmap, pages: Set<u32>, page: u32)
    requires
        bitmap.represents(pages),
    ensures
        bitmap.marks(page as int) <==> pages.contains(page),
{
    assert(bitmap.marked_pages().contains(page as int) <==> pages.contains(page));
}

/// A bitmap that represents a set has as many free pages as the set has members.
pub proof fn law_marked_count_is_set_size(bitmap: FreePagesbitmap, pages: Set<u32>)
    requires
        bitmap.represents(pages),
    ensures
        pages.finite(),
        bitmap.marked_pages().finite(),
        bitmap.marked_pages().len() == pages.len(),
{
    let marked = bitmap.marked_pages();
    let narrow = |p: int| p as u32;
    lemma_set_bits_count(bitmap.bitmap@, 8 * bitmap.bitmap@.len() as int);
    assert(marked.map(narrow) =~= pages) by {
        assert forall|p: u32| pages.contains(p) implies #[trigger] marked.map(narrow).contains(
            p,
        ) by {
            assert(marked.contains(p as int));
            assert(narrow(p as int) == p);
        }
    }
    vstd::set_lib::lemma_map_size(marked, pages, narrow);
}

/// The number of set bits among the first `n` bits of a bitmap.
spec fn bit_count(bitmap: Seq<u8>, n: int) -> nat
    decreases n,
{
    if n <= 0 {
        0
    } else {
        bit_count(bitmap, n - 1) + if bit_is_set(bitmap, n - 1) {
            1nat
        } else {
            0nat
        }
    }
}

proof fn lemma_bit_count_monotonic(bitmap: Seq<u8>, m: int, n: int)
    requires
        m <= n,
    ensures
        bit_count(bitmap, m) <= bit_count(bitmap, n),
    decreases n - m,
{
    if m < n {
        lemma_bit_count_monotonic(bitmap, m, n - 1);
    }
}

proof fn lemma_set_bits_count(bitmap: Seq<u8>, n: int)
    requires
        0 <= n,
    ensures
        set_bits(bitmap, n).finite(),
        set_bits(bitmap, n).len() == bit_count(bitmap, n),
    decreases n,
{
    if n == 0 {
        assert(set_bits(bitmap, n) =~= Set::empty());
    } else {
        lemma_set_bits_count(bitmap, n - 1);
        if bit_is_set(bitmap, n - 1) {
            assert(set_bits(bitmap, n) =~= set_bits(bitmap, n - 1).insert(n - 1));
        } else {
            assert(set_bits(bitmap, n) =~= set_bits(bitmap, n - 1));
        }
    }
}

/// A sequence with one more element contains that element and what it contained before.
pub proof fn lemma_contains_push<T>(s: Seq<T>, x: T, y: T)
    ensures
        s.push(x).contains(y) <==> s.contains(y) || x == y,
{
    if s.contains(y) {
        let i = choose|i: int| 0 <= i < s.len() && s[i] == y;
        assert(s.push(x)[i] == y);
    }
    assert(s.push(x)[s.len() as int] == x);
}

proof fn lemma_set_bit(b: u8, set: u32, k: u8)
    requires
        set < 8,
        k < 8,
    ensures
        ((b | (1u8 << set)) & (1u8 << k)) != 0 <==> (b & (1u8 << k)) != 0 || set == k,
{
    assert(set < 8 && k < 8 ==> (((b | (1u8 << set)) & (1u8 << k)) != 0 <==> (b & (1u8 << k)) != 0
        || set == k as u32)) by (bit_vector);
}

/// A bitmap that represents a set has one bit for each page and less than a byte more, and page `p`
/// is in the set exactly if bit `p % 8` of byte `p / 8`, counted from the least significant one, is
/// set. No page of the set lies at or above the total.
pub proof fn law_each_page_has_its_bit(bitmap: FreePagesbitmap, pages: Set<u32>)
    requires
        bitmap.represents(pages),
    ensures
        bitmap.total_pages <= 8 * bitmap.bitmap@.len() < bitmap.total_pages + 8,
        forall|page: u32| #[trigger] pages.contains(page) ==> page < bitmap.total_pages,
        forall|page: u32|
            page < bitmap.total_pages ==> (#[trigger] pages.contains(page) <==> (
            bitmap.bitmap@[page as int / 8] & (1u8 << ((page % 8) as u8))) != 0),
{
    assert forall|page: u32| #[trigger] pages.contains(page) implies page < bitmap.total_pages by {
        assert(bitmap.marked_pages().contains(page as int));
    }
    assert forall|page: u32| page < bitmap.total_pages implies (#[trigger] pages.contains(page)
        <==> (bitmap.bitmap@[page as int / 8] & (1u8 << ((page % 8) as u8))) != 0) by {
        assert(bitmap.marked_pages().contains(page as int) <==> bit_is_set(
            bitmap.bitmap@,
            page as int,
        ));
    }
}

/// A page is marked as free exactly if it is below the total and its bit is set.
pub proof fn law_marked_means_bit_is_set(bitmap: FreePagesbitmap, page: u32)
    ensures
        bitmap.marks(page as int) <==> page < bitmap.total_pages && (bitmap.bitmap@[page as int / 8]
            & (1u8 << ((page % 8) as u8))) != 0,
{
}

/// The counted pages are the set bits of all bytes, whatever the total says.
pub proof fn law_every_set_bit_counts(bitmap: FreePagesbitmap, p: int)
    ensures
        bitmap.marked_pages().contains(p) <==> 0 <= p < 8 * bitmap.bitmap@.len() && (
        bitmap.bitmap@[p / 8] & (1u8 << ((p % 8) as u8))) != 0,
        bitmap.marked_pages().finite(),
{
    lemma_set_bits_count(bitmap.bitmap@, 8 * bitmap.bitmap@.len() as int);
}

} // verus!
