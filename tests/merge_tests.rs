use rustmerger::dedup::LineSet;
use rustmerger::ingest::split_into_batches;
use rustmerger::order::{batch_capacity, optimize_processing_order, FileDescriptor, MAX_BATCH_LINES};
use rustmerger::progress::Progress;
use rustmerger::file_utils::{FileProcessor, FileUtils};
use rustmerger::encoding::EncodingKind;
use rustmerger::errors::MergerError;
use rustmerger::session::{parse_input_list, prepare_file, render_output, MergeSession};
use rustmerger::strategies::EncodingStrategy;
use std::collections::BTreeSet;

fn set_of(lines: &[String]) -> BTreeSet<String> {
    lines.iter().cloned().collect()
}

fn expected(items: &[&str]) -> BTreeSet<String> {
    items.iter().map(|s| s.to_string()).collect()
}

fn run(files: &[(&str, &[u8])], capacity: usize) -> (Vec<String>, Progress) {
    let names: Vec<String> = files.iter().map(|(n, _)| n.to_string()).collect();
    let mut s = MergeSession::new(
        names,
        Progress::new("list.txt".to_string(), "out.txt".to_string(), 4),
        EncodingStrategy::AutoDetect,
        capacity,
    );
    let mut i = 0;
    while let Some(name) = s.next_file() {
        assert_eq!(name, files[i].0);
        s.complete_file(files[i].1);
        i += 1;
    }
    let progress = Progress {
        input_file: s.progress().input_file.clone(),
        output_file: s.progress().output_file.clone(),
        threads: s.progress().threads,
        processed_files: s.progress().processed_files.clone(),
        current_position: s.progress().current_position,
        save_path: s.progress().save_path.clone(),
    };
    (s.finish(), progress)
}

#[test]
fn scenario_two_files_mixed_encodings() {
    let a: &[u8] = b"pass1\npass2\n";
    let b: &[u8] = b"caf\xE9\npass1\n";
    let (out, progress) = run(&[("a.txt", a), ("b.txt", b)], 1000);
    assert_eq!(set_of(&out), expected(&["pass1", "pass2", "café"]));
    assert_eq!(out.len(), 3);
    assert_eq!(progress.processed_files, vec!["a.txt".to_string(), "b.txt".to_string()]);
    assert_eq!(progress.current_position, 4);
}

#[test]
fn scenario_interrupt_and_resume() {
    let a: &[u8] = b"pass1\npass2\n";
    let b: &[u8] = b"caf\xE9\npass1\n";
    let inputs = vec!["a.txt".to_string(), "b.txt".to_string()];

    let mut first = MergeSession::new(
        inputs.clone(),
        Progress::new("list.txt".to_string(), "out.txt".to_string(), 4),
        EncodingStrategy::AutoDetect,
        1000,
    );
    assert_eq!(first.next_file(), Some("a.txt".to_string()));
    first.complete_file(a);
    assert!(first.request_shutdown());
    assert_eq!(first.next_file(), None);
    assert_eq!(first.progress().processed_files, vec!["a.txt".to_string()]);
    assert_eq!(first.progress().current_position, 2);
    let checkpoint = Progress {
        input_file: first.progress().input_file.clone(),
        output_file: first.progress().output_file.clone(),
        threads: first.progress().threads,
        processed_files: first.progress().processed_files.clone(),
        current_position: first.progress().current_position,
        save_path: Some("checkpoint.json".to_string()),
    };
    let partial_output = render_output(&first.finish());

    let remaining = checkpoint.remaining_files(&inputs);
    assert_eq!(remaining, vec!["b.txt".to_string()]);
    let mut resumed = MergeSession::new(remaining, checkpoint, EncodingStrategy::AutoDetect, 1000);
    assert_eq!(resumed.next_file(), Some("b.txt".to_string()));
    resumed.complete_file(b);
    assert_eq!(resumed.next_file(), None);
    assert_eq!(
        resumed.progress().processed_files,
        vec!["a.txt".to_string(), "b.txt".to_string()]
    );
    assert_eq!(resumed.progress().current_position, 4);
    let appended = FileUtils::append_unique_lines(&partial_output, &resumed.finish());
    assert_eq!(appended, vec!["café".to_string()]);

    let mut final_lines = parse_input_list(&partial_output);
    final_lines.extend(appended);
    let (uninterrupted, _) = run(&[("a.txt", a), ("b.txt", b)], 1000);
    assert_eq!(set_of(&final_lines), set_of(&uninterrupted));
    assert_eq!(final_lines.len(), 3);
}

#[test]
fn merging_twice_in_any_order_gives_the_same_set() {
    let a: &[u8] = b"x\ny\n";
    let b: &[u8] = b"y\nz\n";
    let c: &[u8] = b"  x  \r\n\n w\n";
    let (one, _) = run(&[("a", a), ("b", b), ("c", c)], 2);
    let (two, _) = run(&[("c", c), ("a", a), ("b", b)], 1);
    assert_eq!(set_of(&one), set_of(&two));
    assert_eq!(set_of(&one), expected(&["x", "y", "z", "w"]));
}

#[test]
fn duplicates_appear_once() {
    let a: &[u8] = b"dup\ndup\nsolo\n";
    let b: &[u8] = b"dup\n";
    let (out, progress) = run(&[("a", a), ("b", b)], 10);
    assert_eq!(out.iter().filter(|l| *l == "dup").count(), 1);
    assert_eq!(out.len(), 2);
    assert_eq!(progress.current_position, 4);
}

#[test]
fn skipped_file_contributes_nothing() {
    let mut s = MergeSession::new(
        vec!["ok".to_string(), "unreadable".to_string(), "ok2".to_string()],
        Progress::default(),
        EncodingStrategy::AutoDetect,
        5,
    );
    s.complete_file(b"one\ntwo");
    s.skip_file();
    s.complete_file(b"three\n");
    assert_eq!(s.next_file(), None);
    assert_eq!(s.unique_count(), 3);
    assert_eq!(s.progress().processed_files, vec!["ok".to_string(), "ok2".to_string()]);
    let out = s.finish();
    assert_eq!(set_of(&out), expected(&["one", "two", "three"]));
}

#[test]
fn batches_never_exceed_capacity() {
    let text = "a\nb\nc\nd\ne\na\n";
    let fb = split_into_batches(text, 2);
    assert!(fb.batches.iter().all(|b| b.len() >= 1 && b.len() <= 2));
    assert_eq!(fb.line_count, 6);
    let mut all = LineSet::new();
    for b in fb.batches {
        all.absorb(b);
    }
    assert_eq!(all.len(), 5);
    let empty = split_into_batches("", 3);
    assert!(empty.batches.is_empty());
    assert_eq!(empty.line_count, 0);
    let blank = split_into_batches(" \n\t\n", 3);
    assert!(blank.batches.is_empty());
    assert_eq!(blank.line_count, 2);
    assert_eq!(split_into_batches("a\n\nb", 3).line_count, 3);
}

#[test]
fn line_set_basics() {
    let mut s = LineSet::new();
    assert!(s.is_empty());
    assert!(s.insert("a".to_string()));
    assert!(!s.insert("a".to_string()));
    assert!(s.contains(&"a".to_string()));
    assert!(!s.contains(&"b".to_string()));
    assert_eq!(s.len(), 1);
    assert_eq!(s.into_lines(), vec!["a".to_string()]);
}

#[test]
fn order_puts_large_files_first() {
    let files = vec![
        FileDescriptor { path: "small".to_string(), byte_size: 10 },
        FileDescriptor { path: "large".to_string(), byte_size: 2 * 1024 * 1024 * 1024 },
        FileDescriptor { path: "medium".to_string(), byte_size: 200 * 1024 * 1024 },
        FileDescriptor { path: "small2".to_string(), byte_size: 20 },
        FileDescriptor { path: "small3".to_string(), byte_size: 10 },
    ];
    assert_eq!(
        optimize_processing_order(files),
        vec!["large", "medium", "small2", "small", "small3"]
    );
    assert!(optimize_processing_order(Vec::new()).is_empty());
}

#[test]
fn batch_capacity_from_memory() {
    assert!(matches!(batch_capacity(None), Err(MergerError::SysInfo(_))));
    assert_eq!(batch_capacity(Some(48)).unwrap(), 1024);
    assert_eq!(batch_capacity(Some(0)).unwrap(), 1);
    assert_eq!(batch_capacity(Some(u64::MAX)).unwrap(), MAX_BATCH_LINES);
}

#[test]
fn input_list_and_output_text() {
    let list = parse_input_list("a.txt\n\n  b.txt \r\n\nc.txt");
    assert_eq!(list, vec!["a.txt", "b.txt", "c.txt"]);
    assert_eq!(render_output(&vec!["x".to_string(), "y".to_string()]), "x\ny\n");
    assert_eq!(render_output(&Vec::new()), "");
    let append = FileUtils::append_unique_lines("x\ny\n", &vec!["y".to_string(), "z".to_string()]);
    assert_eq!(append, vec!["z".to_string()]);
}

#[test]
fn resume_skips_processed_files() {
    let mut p = Progress::default();
    assert_eq!(p.threads, 10);
    p.record_completed_file("A".to_string(), 3);
    p.add_processed_file("B".to_string());
    assert_eq!(p.current_position, 4);
    assert!(p.is_processed(&"A".to_string()));
    let inputs: Vec<String> = ["A", "C", "B", "D"].iter().map(|s| s.to_string()).collect();
    assert_eq!(p.remaining_files(&inputs), vec!["C".to_string(), "D".to_string()]);
    p.attach_save_path("cp.json".to_string());
    assert_eq!(p.save_path, Some("cp.json".to_string()));
}

#[test]
fn append_unique_lines_dedups_new_lines_too() {
    let new = vec!["b".to_string(), "c".to_string(), "b".to_string(), "a".to_string()];
    assert_eq!(
        FileUtils::append_unique_lines("a\n", &new),
        vec!["b".to_string(), "c".to_string()]
    );
}

#[test]
fn file_processor_records_readable_files() {
    let mut p = Progress::default();
    FileProcessor::process_file(&mut p, "x".to_string(), true);
    FileProcessor::process_file(&mut p, "y".to_string(), false);
    assert_eq!(p.processed_files, vec!["x".to_string()]);
    assert_eq!(p.current_position, 1);
}

#[test]
fn producers_prepare_and_aggregator_merges() {
    let strategy = EncodingStrategy::force_windows1252();
    let p1 = prepare_file(&strategy, b"caf\xE9\nx\nx\n", 1);
    assert_eq!(p1.encoding(), EncodingKind::Windows1252);
    assert_eq!(p1.line_count(), 3);
    let p2 = prepare_file(&strategy, b"y\n", 1);
    let mut s = MergeSession::new(
        vec!["one".to_string(), "two".to_string()],
        Progress::default(),
        strategy.clone(),
        1,
    );
    assert_eq!(s.capacity(), 1);
    s.merge_prepared(p1);
    s.merge_prepared(p2);
    assert_eq!(s.progress().current_position, 4);
    assert_eq!(s.encoding_handler().get_stats().files_processed(), 2);
    assert_eq!(
        s.encoding_handler().get_stats().forced_entries(),
        vec![("windows-1252".to_string(), 2)]
    );
    assert_eq!(set_of(&s.finish()), expected(&["café", "x", "y"]));
}

#[test]
fn unicode_whitespace_is_trimmed() {
    let lines = parse_input_list("\u{3000}abc\u{A0}\n\u{2003}\n\tx y\u{85}\n");
    assert_eq!(lines, vec!["abc", "x y"]);
}

#[test]
fn checkpoint_position_counts_blank_lines() {
    let (_, progress) = run(&[("a", b"x\n\n\ny")], 10);
    assert_eq!(progress.current_position, 4);
}

#[test]
fn equal_sizes_keep_input_order() {
    let files = vec![
        FileDescriptor { path: "b".to_string(), byte_size: 5 },
        FileDescriptor { path: "a".to_string(), byte_size: 5 },
        FileDescriptor { path: "c".to_string(), byte_size: 9 },
        FileDescriptor { path: "d".to_string(), byte_size: 5 },
    ];
    assert_eq!(optimize_processing_order(files), vec!["c", "b", "a", "d"]);
}
