use microvm::free_pages::{create_free_pages_bitmap, FreePagesError, FreePagesbitmap};
use std::collections::HashSet;

#[test]
fn test_bitmap_operations() {
    let mut free_pages = HashSet::new();
    free_pages.insert(100);
    free_pages.insert(200);
    free_pages.insert(300);

    let bitmap = FreePagesbitmap::new(&free_pages, 1000, 4096).unwrap();

    // Test is_page_free
    assert!(bitmap.is_page_free(100));
    assert!(bitmap.is_page_free(200));
    assert!(bitmap.is_page_free(300));
    assert!(!bitmap.is_page_free(150));

    // Test free_page_count
    assert_eq!(bitmap.free_page_count(), 3);
}

#[test]
fn test_bitmap_memory_efficiency() {
    // Test that bitmap uses minimal memory
    let total_pages = 1_000_000u64; // ~4GB worth of pages
    let free_pages = HashSet::new(); // Empty set
    let bitmap = FreePagesbitmap::new(&free_pages, total_pages, 4096).unwrap();

    // Bitmap should use about 125KB (1M bits / 8 bits per byte)
    let expected_bitmap_bytes = ((total_pages + 7) / 8) as usize;
    assert_eq!(bitmap.bitmap.len(), expected_bitmap_bytes);
}

#[test]
fn test_create_free_pages_bitmap() {
    let mut inflated_pages = HashSet::new();
    inflated_pages.insert(42);
    inflated_pages.insert(1337);

    let bitmap = create_free_pages_bitmap(&inflated_pages, 10000, 4096).unwrap();
    assert!(bitmap.is_page_free(42));
    assert!(bitmap.is_page_free(1337));
    assert!(!bitmap.is_page_free(500));
    assert_eq!(bitmap.free_page_count(), 2);
}

#[test]
fn bits_are_laid_out_from_the_lowest() {
    let pages = HashSet::from([0u32, 3, 8, 15, 16]);
    let bitmap = FreePagesbitmap::new(&pages, 17, 4096).unwrap();
    assert_eq!(bitmap.bitmap, vec![0b0000_1001, 0b1000_0001, 0b0000_0001]);
    assert_eq!(bitmap.total_pages, 17);
    assert_eq!(bitmap.page_size, 4096);
    assert_eq!(bitmap.free_page_count(), 5);
}

#[test]
fn page_beyond_the_end_is_refused() {
    let pages = HashSet::from([10u32]);
    match create_free_pages_bitmap(&pages, 10, 4096) {
        Err(FreePagesError::InvalidPageNumber(page, total)) => {
            assert_eq!(page, 10);
            assert_eq!(total, 10);
        }
        Ok(_) => panic!("a page beyond the end was accepted"),
    }
}

#[test]
fn page_beyond_the_end_is_not_free() {
    let pages = HashSet::from([8u32]);
    let bitmap = FreePagesbitmap::new(&pages, 9, 4096).unwrap();
    assert!(bitmap.is_page_free(8));
    assert!(!bitmap.is_page_free(9));
    assert!(!bitmap.is_page_free(u32::MAX));
}

#[test]
fn bitmap_of_no_pages_is_empty() {
    let bitmap = FreePagesbitmap::new(&HashSet::new(), 0, 4096).unwrap();
    assert!(bitmap.bitmap.is_empty());
    assert_eq!(bitmap.free_page_count(), 0);
    assert!(!bitmap.is_page_free(0));
}

#[test]
fn count_is_the_size_of_the_set_and_membership_is_freeness() {
    let pages: HashSet<u32> = (0..500).filter(|p| p % 7 == 3).collect();
    let bitmap = FreePagesbitmap::new(&pages, 500, 4096).unwrap();
    assert_eq!(bitmap.free_page_count(), pages.len());
    for page in 0..600 {
        assert_eq!(bitmap.is_page_free(page), pages.contains(&page));
    }
}
