use parallel_file_processor::errors::ProcessingError;
use parallel_file_processor::processor::Processor;
use parallel_file_processor::progress::{FileStatus, Progress};
use parallel_file_processor::report::{decimal_text, report_text};
use parallel_file_processor::types::{FileAnalysis, FileStats};
use std::time::Duration;

fn count_of(stats: &FileStats, c: char) -> Option<usize> {
    stats.char_frequencies.iter().find(|e| e.0 == c).map(|e| e.1)
}

fn run_task(progress: &mut Progress, name: &str, read: Result<String, String>) -> FileAnalysis {
    let name = name.to_string();
    assert!(progress.begin(&name));
    let analysis = Processor::analysis_of(name.clone(), read, Duration::from_millis(1));
    assert!(progress.finish(&name, Processor::failed(&analysis)));
    analysis
}

#[test]
fn integration_file_processing_no_external() {
    // The text as `writeln!` puts it in the file.
    let contents = format!("{}\n", "one two three\nsecond line");
    let mut progress = Progress::new(1);
    let name = "pff_test_1.txt".to_string();
    assert!(progress.register(&name));
    let analysis = run_task(&mut progress, &name, Ok(contents));
    assert_eq!(analysis.filename, name);
    assert_eq!(analysis.stats.word_count, 5);
    assert_eq!(analysis.stats.line_count, 2);
    assert_eq!(analysis.stats.size_bytes, 26);
    assert!(analysis.errors.is_empty());
    assert_eq!(progress.processed, 1);
    assert_eq!(progress.status_of(&name), Some(FileStatus::Done));
}

#[test]
fn three_files_all_done() {
    let texts = [
        ("a.txt", "hello world\n", 2usize, 1usize),
        ("b.txt", "one\ntwo\nthree four five\n", 5, 3),
        ("c.txt", "  spaced   out\twords here", 4, 1),
    ];
    let mut progress = Progress::new(3);
    for (name, _, _, _) in texts.iter() {
        assert!(progress.register(&name.to_string()));
    }
    let mut results = Vec::new();
    for (name, text, _, _) in texts.iter() {
        results.push(run_task(&mut progress, name, Ok(text.to_string())));
    }
    assert_eq!(progress.processed, 3);
    assert!(progress.processed >= progress.total_files);
    assert_eq!(results.len(), 3);
    for ((name, text, words, lines), r) in texts.iter().zip(results.iter()) {
        assert_eq!(progress.status_of(&name.to_string()), Some(FileStatus::Done));
        assert_eq!(&r.filename, name);
        assert_eq!(r.stats.word_count, *words);
        assert_eq!(r.stats.line_count, *lines);
        assert_eq!(r.stats.size_bytes, text.len() as u64);
    }
    assert_eq!(count_of(&results[0].stats, 'l'), Some(3));
    assert_eq!(count_of(&results[0].stats, 'o'), Some(2));
    assert_eq!(count_of(&results[0].stats, '\n'), Some(1));
    assert_eq!(count_of(&results[0].stats, 'z'), None);
    assert_eq!(results[0].stats.char_frequencies.len(), 9);
}

#[test]
fn unreadable_file_is_an_error() {
    let mut progress = Progress::new(1);
    let name = "missing.txt".to_string();
    assert!(progress.register(&name));
    let r = run_task(&mut progress, &name, Err("No such file or directory".to_string()));
    assert_eq!(r.errors.len(), 1);
    assert_eq!(
        r.errors[0].message,
        "Failed to read file missing.txt: No such file or directory"
    );
    assert_eq!(r.stats.word_count, 0);
    assert_eq!(r.stats.line_count, 0);
    assert_eq!(r.stats.size_bytes, 0);
    assert!(r.stats.char_frequencies.is_empty());
    assert_eq!(progress.status_of(&name), Some(FileStatus::Error));
    assert_eq!(progress.processed, 1);
}

#[test]
fn cancelled_batch_counts_nothing() {
    let names = ["x", "y", "z"];
    let mut progress = Progress::new(3);
    let mut results = Vec::new();
    for n in names.iter() {
        let name = n.to_string();
        assert!(progress.register(&name));
        assert!(progress.begin(&name));
        assert!(progress.cancel(&name));
        results.push(Processor::cancelled_analysis(name, Duration::from_millis(0)));
    }
    assert_eq!(progress.processed, 0);
    assert_eq!(results.len(), 3);
    for (n, r) in names.iter().zip(results.iter()) {
        assert_eq!(progress.status_of(&n.to_string()), Some(FileStatus::Cancelled));
        assert_eq!(r.stats.word_count, 0);
        assert_eq!(r.stats.size_bytes, 0);
        assert!(r.stats.char_frequencies.is_empty());
        assert!(r.errors.is_empty());
    }
    // A cancelled task cannot be finished afterwards.
    assert!(!progress.finish(&"x".to_string(), false));
    assert_eq!(progress.processed, 0);
}

#[test]
fn empty_batch_is_complete_at_once() {
    let progress = Progress::new(0);
    assert_eq!(progress.processed, 0);
    assert!(progress.processed >= progress.total_files);
    assert_eq!(progress.status_of(&"any".to_string()), None);
}

#[test]
fn complete_batch_holds_one_record_per_task() {
    let mut progress = Progress::new(4);
    let mut results = Vec::new();
    for i in 0..4 {
        let name = format!("f{}", i);
        assert!(progress.register(&name));
        let read = if i == 2 { Err("denied".to_string()) } else { Ok("w".to_string()) };
        results.push(run_task(&mut progress, &name, read));
    }
    assert_eq!(progress.processed, progress.total_files);
    let mut names: Vec<String> = results.iter().map(|r| r.filename.clone()).collect();
    names.sort();
    names.dedup();
    assert_eq!(names.len(), 4);
    for (name, status) in progress.statuses.iter() {
        assert!(*status == FileStatus::Done || *status == FileStatus::Error, "{}", name);
    }
}

#[test]
fn statuses_never_go_back() {
    let mut progress = Progress::new(2);
    let a = "a".to_string();
    assert!(!progress.finish(&a, false));
    assert!(!progress.cancel(&a));
    assert!(progress.register(&a));
    assert!(!progress.register(&a));
    assert!(!progress.finish(&a, false));
    assert!(progress.begin(&a));
    assert!(!progress.begin(&a));
    assert!(!progress.register(&a));
    assert!(progress.finish(&a, true));
    assert_eq!(progress.status_of(&a), Some(FileStatus::Error));
    assert!(!progress.begin(&a));
    assert!(!progress.cancel(&a));
    assert!(!progress.finish(&a, false));
    assert_eq!(progress.status_of(&a), Some(FileStatus::Error));
    assert_eq!(progress.processed, 1);
}

#[test]
fn no_room_beyond_total() {
    let mut progress = Progress::new(1);
    assert!(progress.begin(&"a".to_string()));
    assert!(!progress.register(&"b".to_string()));
    assert!(!progress.begin(&"b".to_string()));
    assert_eq!(progress.statuses.len(), 1);
    assert_eq!(progress.status_of(&"b".to_string()), None);
}

#[test]
fn error_text() {
    let e = ProcessingError::new("boom".to_string());
    assert_eq!(e.to_string(), "boom");
}

#[test]
fn report_layout() {
    let a = Processor::analysis_of("a.txt".to_string(), Ok("ab a\n".to_string()), Duration::from_millis(3));
    let b = Processor::analysis_of("b.txt".to_string(), Err("gone".to_string()), Duration::from_millis(4));
    let text = report_text(&vec![a, b], &vec!["3.00ms".to_string(), "4.00ms".to_string()]);
    let expected = "File: a.txt\n  Size (bytes): 5\n  Words: 2\n  Lines: 1\n  Character frequencies:\n    'a': 2\n    'b': 1\n    ' ': 1\n    '\n': 1\n  Processing time: 3.00ms\n\n\
File: b.txt\n  Size (bytes): 0\n  Words: 0\n  Lines: 0\n  Character frequencies:\n  Errors:\n    Failed to read file b.txt: gone\n  Processing time: 4.00ms\n\n";
    assert_eq!(text, expected);
}

#[test]
fn decimal_numbers() {
    assert_eq!(decimal_text(0), "0");
    assert_eq!(decimal_text(7), "7");
    assert_eq!(decimal_text(12345), "12345");
    assert_eq!(decimal_text(u64::MAX), "18446744073709551615");
}
