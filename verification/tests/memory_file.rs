use microvm::free_pages::FreePagesbitmap;
use microvm::zeroing::{plan_zero_free_pages, zero_pages_batch, ZeroRun};
use std::collections::HashSet;
use std::io::{Read, Seek, SeekFrom, Write};
use tempfile::NamedTempFile;

fn write_runs<F: Write + Seek>(file: &mut F, runs: &[ZeroRun]) {
    let zero_page = vec![0u8; 4096];
    for run in runs {
        file.seek(SeekFrom::Start(run.start_offset)).unwrap();
        for _ in 0..run.page_count {
            file.write_all(&zero_page).unwrap();
        }
    }
    file.flush().unwrap();
}

fn read_start(file: &NamedTempFile, len: usize) -> Vec<u8> {
    let mut reader = file.reopen().unwrap();
    let mut buffer = vec![0u8; len];
    reader.read_exact(&mut buffer).unwrap();
    buffer
}

#[test]
fn test_zero_pages_batch_efficiency() {
    // Create a temporary file with test data
    let mut temp_file = NamedTempFile::new().unwrap();
    let test_data = vec![0xAA; 16384]; // 4 pages of 0xAA
    temp_file.write_all(&test_data).unwrap();
    temp_file.flush().unwrap();

    // Create a bitmap with some free pages
    let mut free_pages = HashSet::new();
    free_pages.insert(0); // First page
    free_pages.insert(2); // Third page

    const PAGE_SIZE: u32 = 4096;
    let bitmap = FreePagesbitmap::new(&free_pages, 4, PAGE_SIZE).unwrap();

    // Zero out the free pages
    let plan = plan_zero_free_pages(&bitmap);
    write_runs(&mut temp_file, &plan.runs());

    // Verify the results
    let buffer = read_start(&temp_file, 16384);

    // Page 0 should be zeros
    assert!(buffer[0..4096].iter().all(|&b| b == 0));
    // Page 1 should still be 0xAA
    assert!(buffer[4096..8192].iter().all(|&b| b == 0xAA));
    // Page 2 should be zeros
    assert!(buffer[8192..12288].iter().all(|&b| b == 0));
    // Page 3 should still be 0xAA
    assert!(buffer[12288..16384].iter().all(|&b| b == 0xAA));

    assert_eq!(plan.pages_zeroed, 2);
    assert_eq!(plan.bytes_zeroed, 8192);
}

#[test]
fn test_consecutive_pages_optimization() {
    // Create test file
    let mut temp_file = NamedTempFile::new().unwrap();
    let test_data = vec![0xFF; 32768]; // 8 pages of 0xFF
    temp_file.write_all(&test_data).unwrap();

    // Test consecutive pages (should be optimized)
    let consecutive_pages = vec![0, 1, 2, 3]; // 4 consecutive pages
    let batch = zero_pages_batch(&consecutive_pages);

    assert_eq!(batch.pages_processed, 4);
    assert_eq!(batch.bytes_written, 16384); // 4 * 4096
    assert_eq!(batch.runs, vec![ZeroRun { start_offset: 0, page_count: 4 }]);

    write_runs(&mut temp_file, &batch.runs);

    // Verify all 4 pages are zeroed
    let buffer = read_start(&temp_file, 16384);
    assert!(buffer.iter().all(|&b| b == 0));
}

#[test]
fn pages_of_a_batch_are_sorted_before_they_are_joined() {
    let batch = zero_pages_batch(&vec![9, 3, 4, 8, 1]);
    assert_eq!(
        batch.runs,
        vec![
            ZeroRun { start_offset: 4096, page_count: 1 },
            ZeroRun { start_offset: 3 * 4096, page_count: 2 },
            ZeroRun { start_offset: 8 * 4096, page_count: 2 },
        ]
    );
    assert_eq!(batch.pages_processed, 5);
    assert_eq!(batch.bytes_written, 5 * 4096);
    assert_eq!(batch.runs[1].total_bytes(), 8192);
}

#[test]
fn empty_batch_writes_nothing() {
    let batch = zero_pages_batch(&vec![]);
    assert!(batch.runs.is_empty());
    assert_eq!(batch.pages_processed, 0);
    assert_eq!(batch.bytes_written, 0);
}

#[test]
fn page_numbers_reach_offsets_beyond_32_bits() {
    let batch = zero_pages_batch(&vec![u32::MAX]);
    assert_eq!(
        batch.runs,
        vec![ZeroRun { start_offset: 17_592_186_040_320, page_count: 1 }]
    );
}

#[test]
fn plan_cuts_free_pages_into_batches_of_sixteen() {
    let pages: HashSet<u32> = (0..40).collect();
    let bitmap = FreePagesbitmap::new(&pages, 64, 4096).unwrap();
    let plan = plan_zero_free_pages(&bitmap);
    assert_eq!(plan.pages_zeroed, 40);
    assert_eq!(plan.bytes_zeroed, 40 * 4096);
    let sizes: Vec<usize> = plan.batches.iter().map(|b| b.pages_processed).collect();
    assert_eq!(sizes, vec![16, 16, 8]);
    assert_eq!(
        plan.runs(),
        vec![
            ZeroRun { start_offset: 0, page_count: 16 },
            ZeroRun { start_offset: 16 * 4096, page_count: 16 },
            ZeroRun { start_offset: 32 * 4096, page_count: 8 },
        ]
    );
}

#[test]
fn plan_zeroes_the_free_pages_and_keeps_the_rest() {
    let pages = HashSet::from([1u32, 2, 5, 7]);
    let bitmap = FreePagesbitmap::new(&pages, 8, 4096).unwrap();
    let mut temp_file = NamedTempFile::new().unwrap();
    temp_file.write_all(&vec![0x5A; 8 * 4096]).unwrap();
    write_runs(&mut temp_file, &plan_zero_free_pages(&bitmap).runs());
    let buffer = read_start(&temp_file, 8 * 4096);
    for page in 0..8u32 {
        let expected = if pages.contains(&page) { 0 } else { 0x5A };
        let start = page as usize * 4096;
        assert!(buffer[start..start + 4096].iter().all(|&b| b == expected));
    }
    assert_eq!(temp_file.as_file().metadata().unwrap().len(), 8 * 4096);
}

#[test]
fn plan_without_free_pages_writes_nothing() {
    let bitmap = FreePagesbitmap::new(&HashSet::new(), 64, 4096).unwrap();
    let plan = plan_zero_free_pages(&bitmap);
    assert!(plan.batches.is_empty());
    assert!(plan.runs().is_empty());
}
