
use wikiext::output::{OutputConfig, OutputSplitter};

#[test]
fn test_dir_naming_sequence() {
    // Verify directory naming: AA, AB, ..., AZ, BA, ...
    assert_eq!(OutputSplitter::dir_name(0), "AA");
    assert_eq!(OutputSplitter::dir_name(1), "AB");
    assert_eq!(OutputSplitter::dir_name(25), "AZ");
    assert_eq!(OutputSplitter::dir_name(26), "BA");
    assert_eq!(OutputSplitter::dir_name(27), "BB");
    assert_eq!(OutputSplitter::dir_name(51), "BZ");
    assert_eq!(OutputSplitter::dir_name(52), "CA");
}

fn config(path: &str, max_file_size: u64) -> OutputConfig {
    OutputConfig { path: path.to_string(), max_file_size, compress: false }
}

/// Opens the next file as the writer would, returning its relative path.
fn open_next(splitter: &mut OutputSplitter) -> (String, String) {
    let names = splitter.next_file();
    splitter.file_opened();
    names
}

#[test]
fn test_next_file_naming() {
    let mut splitter = OutputSplitter::new(config("wikiext_test_file_naming", 1024));

    // First file should be AA/wiki_00
    assert_eq!(open_next(&mut splitter), ("AA".to_string(), "wiki_00".to_string()));

    // Rotation goes to AA/wiki_01
    splitter.file_closed();
    assert_eq!(open_next(&mut splitter), ("AA".to_string(), "wiki_01".to_string()));
}

#[test]
fn test_file_rotation_by_size() {
    let mut splitter = OutputSplitter::new(config("wikiext_test_rotation_size", 50));
    assert_eq!(open_next(&mut splitter), ("AA".to_string(), "wiki_00".to_string()));

    // Write data that fits in one file.
    let small_data = "Hello, World!\n";
    assert!(!splitter.needs_rotation(small_data.len() as u64));
    splitter.record_write(small_data.len() as u64);

    // Write data that triggers rotation (total would exceed 50 bytes).
    let large_data = "A".repeat(50);
    assert!(splitter.needs_rotation(large_data.len() as u64));
    splitter.file_closed();

    // The second write goes to a new file.
    assert_eq!(open_next(&mut splitter), ("AA".to_string(), "wiki_01".to_string()));
    splitter.record_write(large_data.len() as u64);
}

#[test]
fn test_zero_size_one_per_file() {
    let mut splitter = OutputSplitter::new(config("wikiext_test_zero_size", 0));
    let mut files = vec![open_next(&mut splitter)];

    // Each write should go to a separate file.
    for article in ["Article 1\n", "Article 2\n", "Article 3\n"] {
        if splitter.needs_rotation(article.len() as u64) {
            splitter.file_closed();
            files.push(open_next(&mut splitter));
        }
        splitter.record_write(article.len() as u64);
    }

    assert_eq!(
        files,
        vec![
            ("AA".to_string(), "wiki_00".to_string()),
            ("AA".to_string(), "wiki_01".to_string()),
            ("AA".to_string(), "wiki_02".to_string()),
        ]
    );
}

#[test]
fn test_stdout_mode() {
    let config = OutputConfig { path: "-".to_string(), max_file_size: 1024, compress: false };

    let splitter = OutputSplitter::new(config);

    // In stdout mode, no directories should be created.
    assert!(splitter.is_stdout());
}
