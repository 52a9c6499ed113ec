use img_dup::find_uniques;
use img_dup::hasher::HashType;
use img_dup::img::{ImgResults, ImgStatus};
use img_dup::threaded::{
    partition, resolve_threads, Completion, ConfigurationError, ThreadedSession, WorkUnit,
};
use img_dup::SessionBuilder;

fn picture(width: u32, height: u32, shade: fn(u32, u32) -> u8) -> Vec<u8> {
    let buffer = image::ImageBuffer::from_fn(width, height, |x, y| image::Luma([shade(x, y)]));
    let mut bytes: Vec<u8> = Vec::new();
    image::DynamicImage::ImageLuma8(buffer)
        .write_to(&mut bytes, image::ImageOutputFormat::Png)
        .expect("a picture encodes");
    bytes
}

fn rising(x: u32, _y: u32) -> u8 {
    (x * 4) as u8
}

fn falling(x: u32, _y: u32) -> u8 {
    255 - (x * 4) as u8
}

fn checks(x: u32, y: u32) -> u8 {
    if (x / 8 + y / 8) % 2 == 0 {
        230
    } else {
        20
    }
}

/// The contents of a made-up directory: the file's bytes, or why it cannot be read.
fn read(path: &String) -> Result<Vec<u8>, String> {
    if path.starts_with("rising") {
        Ok(picture(64, 64, rising))
    } else if path.starts_with("falling") {
        Ok(picture(64, 64, falling))
    } else if path.starts_with("checks") {
        Ok(picture(64, 64, checks))
    } else if path.starts_with("corrupt") {
        Ok(b"GIF89a but nothing more".to_vec())
    } else {
        Err(format!("{}: no such file", path))
    }
}

fn names(names: &[&str]) -> Vec<String> {
    names.iter().map(|n| (*n).to_owned()).collect()
}

/// What a status is, in a form that can be compared.
fn summary(status: &ImgStatus) -> (String, String, Vec<u8>) {
    match status {
        ImgStatus::Unhashed(path) => ("unhashed".to_owned(), path.clone(), Vec::new()),
        ImgStatus::Hashed(i) => ("hashed".to_owned(), i.path().clone(), i.hash().clone()),
        ImgStatus::Failed(path, reason) => {
            ("failed".to_owned(), path.clone(), reason.clone().into_bytes())
        },
    }
}

fn summaries(results: &ImgResults) -> Vec<(String, String, Vec<u8>)> {
    (0..results.len()).map(|i| summary(results.get(i).expect("an index in range"))).collect()
}

/// Runs a planned session to its end, delivering the completions in the
/// order that `order` makes of them.
fn run(mut session: ThreadedSession, order: fn(&mut Vec<Completion>)) -> ImgResults {
    let settings = session.settings();
    let mut completions: Vec<Completion> = Vec::new();
    for batch in session.take_batches() {
        for unit in batch {
            let contents = read(&unit.path);
            completions.push(unit.process(&settings, contents));
        }
    }
    order(&mut completions);
    for completion in completions {
        assert!(!session.is_complete());
        assert!(session.deliver(completion));
    }
    assert!(session.is_complete());
    session.into_results().expect("a complete session has results")
}

fn as_they_come(_completions: &mut Vec<Completion>) {
}

fn backwards(completions: &mut Vec<Completion>) {
    completions.reverse();
}

fn odd_ones_first(completions: &mut Vec<Completion>) {
    completions.sort_by_key(|c| (c.index % 2 == 0, usize::MAX - c.index));
}

fn mixed_paths() -> Vec<String> {
    names(&[
        "rising-1.png",
        "corrupt-1.png",
        "falling-1.png",
        "missing-1.png",
        "checks-1.png",
        "rising-2.png",
        "falling-2.png",
        "corrupt-2.png",
        "checks-2.png",
        "rising-3.png",
        "missing-2.png",
    ])
}

#[test]
fn builder_starts_with_the_defaults() {
    let builder = SessionBuilder::from_images(names(&["a.png", "b.png"]));
    assert_eq!(builder.images, names(&["a.png", "b.png"]));
    assert_eq!(builder.hash_size, 16);
    assert_eq!(builder.hash_type, HashType::Gradient);
    assert_eq!(builder.threshold, 2);
}

#[test]
fn builder_setters_chain() {
    let mut builder = SessionBuilder::from_images(names(&["a.png"]));
    builder.hash_size(8).hash_type(HashType::Mean).threshold(5);
    assert_eq!(builder.hash_size, 8);
    assert_eq!(builder.hash_type, HashType::Mean);
    assert_eq!(builder.threshold, 5);
    assert_eq!(builder.images, names(&["a.png"]));
    let settings = builder.settings();
    assert_eq!(settings.hash_size, 8);
    assert_eq!(settings.hash_type, HashType::Mean);
    assert_eq!(settings.threshold, 5);
}

#[test]
fn explicit_thread_counts_resolve_to_themselves() {
    assert_eq!(resolve_threads(Some(1), 0), Ok(1));
    assert_eq!(resolve_threads(Some(8), 4), Ok(8));
    assert_eq!(resolve_threads(None, 4), Ok(4));
    assert_eq!(resolve_threads(None, 1), Ok(1));
}

#[test]
fn zero_threads_is_a_configuration_error() {
    assert_eq!(resolve_threads(Some(0), 4), Err(ConfigurationError::ZeroThreads));
    let builder = SessionBuilder::from_images(mixed_paths());
    match builder.process_multithread(Some(0)) {
        Err(e) => assert_eq!(e, ConfigurationError::ZeroThreads),
        Ok(_) => panic!("a session with no threads must not start"),
    }
}

#[test]
fn no_detected_parallelism_is_a_configuration_error() {
    assert_eq!(resolve_threads(None, 0), Err(ConfigurationError::NoParallelism));
    let settings = SessionBuilder::from_images(Vec::new()).settings();
    match ThreadedSession::plan(None, 0, settings, mixed_paths()) {
        Err(e) => assert_eq!(e, ConfigurationError::NoParallelism),
        Ok(_) => panic!("a session without parallelism must not start"),
    }
}

#[test]
fn configuration_errors_say_what_is_wrong() {
    assert_eq!(
        ConfigurationError::ZeroThreads.message(),
        "the thread count must be greater than zero"
    );
    assert_eq!(
        ConfigurationError::NoParallelism.message(),
        "the host reports no available parallelism"
    );
}

#[test]
fn automatic_thread_count_follows_the_host() {
    let builder = SessionBuilder::from_images(mixed_paths());
    match builder.process_multithread(None) {
        Ok(session) => {
            assert!(session.workers() >= 1);
            assert_eq!(session.workers(), num_cpus::get());
            assert_eq!(session.pending(), 11);
        },
        Err(e) => assert_eq!(e, ConfigurationError::NoParallelism),
    }
}

#[test]
fn paths_are_dealt_out_in_turn() {
    let batches = partition(names(&["file0", "file1", "file2", "file3", "file4", "file5", "file6"]), 3);
    let seen: Vec<Vec<(usize, String)>> = batches
        .iter()
        .map(|batch| batch.iter().map(|unit| (unit.index, unit.path.clone())).collect())
        .collect();
    assert_eq!(
        seen,
        vec![
            vec![(0, "file0".to_owned()), (3, "file3".to_owned()), (6, "file6".to_owned())],
            vec![(1, "file1".to_owned()), (4, "file4".to_owned())],
            vec![(2, "file2".to_owned()), (5, "file5".to_owned())],
        ]
    );
}

#[test]
fn more_workers_than_paths_leaves_batches_empty() {
    let batches = partition(names(&["file0", "file1"]), 4);
    let sizes: Vec<usize> = batches.iter().map(|batch| batch.len()).collect();
    assert_eq!(sizes, vec![1, 1, 0, 0]);
    let one = partition(names(&["file0", "file1", "file2"]), 1);
    assert_eq!(one.len(), 1);
    let indices: Vec<usize> = one[0].iter().map(|unit| unit.index).collect();
    assert_eq!(indices, vec![0, 1, 2]);
}

#[test]
fn every_index_is_dealt_out_once() {
    for workers in [1usize, 2, 3, 8, 20] {
        let batches = partition(mixed_paths(), workers);
        assert_eq!(batches.len(), workers);
        let mut indices: Vec<usize> = Vec::new();
        for (w, batch) in batches.iter().enumerate() {
            for unit in batch {
                assert_eq!(unit.index % workers, w);
                assert_eq!(unit.path, mixed_paths()[unit.index]);
                indices.push(unit.index);
            }
        }
        indices.sort();
        assert_eq!(indices, (0..11).collect::<Vec<usize>>());
    }
}

#[test]
fn a_unit_keeps_its_index_through_the_work() {
    let settings = SessionBuilder::from_images(Vec::new()).settings();
    let unit = WorkUnit { index: 7, path: "missing.png".to_owned() };
    let done = unit.process(&settings, read(&"missing.png".to_owned()));
    assert_eq!(done.index, 7);
    match done.status {
        ImgStatus::Failed(path, reason) => {
            assert_eq!(path, "missing.png");
            assert_eq!(reason, "missing.png: no such file");
        },
        other => panic!("expected a failed status, got {:?}", other),
    }
}

#[test]
fn local_results_follow_the_input_order() {
    let results = SessionBuilder::from_images(mixed_paths()).process_local(read);
    assert_eq!(results.len(), 11);
    for (i, path) in mixed_paths().iter().enumerate() {
        let status = results.get(i).expect("an index in range");
        assert_eq!(status.path(), path);
        assert!(status.is_settled());
    }
    assert!(results.get(11).is_none());
}

#[test]
fn local_results_tell_hashed_from_failed() {
    let results = SessionBuilder::from_images(mixed_paths()).process_local(read);
    let kinds: Vec<String> = summaries(&results).into_iter().map(|s| s.0).collect();
    assert_eq!(
        kinds,
        names(&[
            "hashed", "failed", "hashed", "failed", "hashed", "hashed", "hashed", "failed",
            "hashed", "hashed", "failed",
        ])
    );
    match results.get(3).expect("an index in range") {
        ImgStatus::Failed(path, reason) => {
            assert_eq!(path, "missing-1.png");
            assert_eq!(reason, "missing-1.png: no such file");
        },
        other => panic!("expected a failed status, got {:?}", other),
    }
}

#[test]
fn threaded_results_follow_the_input_order() {
    let session = SessionBuilder::from_images(mixed_paths())
        .process_multithread(Some(3))
        .expect("three threads are a valid count");
    let results = run(session, backwards);
    assert_eq!(results.len(), 11);
    for (i, path) in mixed_paths().iter().enumerate() {
        let status = results.get(i).expect("an index in range");
        assert_eq!(status.path(), path);
        assert!(status.is_settled());
    }
}

#[test]
fn results_do_not_depend_on_the_thread_count() {
    let local = summaries(&SessionBuilder::from_images(mixed_paths()).process_local(read));
    for threads in [1usize, 2, 8] {
        for order in [as_they_come, backwards, odd_ones_first] {
            let session = SessionBuilder::from_images(mixed_paths())
                .process_multithread(Some(threads))
                .expect("a positive thread count is valid");
            assert_eq!(session.workers(), threads);
            let results = run(session, order);
            assert_eq!(summaries(&results), local);
        }
    }
}

#[test]
fn failure_of_one_file_leaves_the_others_alone() {
    let session = SessionBuilder::from_images(names(&["corrupt.png", "rising.png", "missing.png"]))
        .process_multithread(Some(2))
        .expect("two threads are a valid count");
    let results = run(session, as_they_come);
    let (images, errors) = results.split();
    assert_eq!(images.len(), 1);
    assert_eq!(images[0].path(), "rising.png");
    assert_eq!(errors.len(), 2);
    assert_eq!(errors[0].0, "corrupt.png");
    assert_eq!(errors[1], ("missing.png".to_owned(), "missing.png: no such file".to_owned()));
}

#[test]
fn two_copies_and_a_corrupt_file_make_one_group_of_two() {
    let mut builder =
        SessionBuilder::from_images(names(&["rising-a.png", "corrupt.png", "rising-b.png"]));
    builder.threshold(2);
    let threshold = builder.settings().threshold;
    let session = builder.process_multithread(Some(2)).expect("two threads are a valid count");
    let results = run(session, backwards);
    assert_eq!(results.len(), 3);
    let kinds: Vec<String> = summaries(&results).into_iter().map(|s| s.0).collect();
    assert_eq!(kinds, names(&["hashed", "failed", "hashed"]));
    assert_eq!(results.get(1).expect("an index in range").path(), "corrupt.png");
    let (images, errors) = results.split();
    assert_eq!(errors.len(), 1);
    assert_eq!(errors[0].0, "corrupt.png");
    assert_eq!(images[0].hash(), images[1].hash());
    let groups = find_uniques(images, threshold);
    assert_eq!(groups.len(), 1);
    assert_eq!(groups[0].len(), 2);
    assert_eq!(groups[0].img.path(), "rising-a.png");
    assert_eq!(groups[0].similars.len(), 1);
    assert_eq!(groups[0].similars[0].path(), "rising-b.png");
}

#[test]
fn different_pictures_fall_into_different_groups() {
    let results = SessionBuilder::from_images(names(&[
        "rising-1.png",
        "falling-1.png",
        "rising-2.png",
        "checks-1.png",
        "falling-2.png",
    ]))
    .process_local(read);
    let (images, errors) = results.split();
    assert!(errors.is_empty());
    let groups = find_uniques(images, 2);
    let shape: Vec<Vec<String>> = groups
        .iter()
        .map(|g| {
            let mut all = vec![g.img.path().clone()];
            all.extend(g.similars.iter().map(|s| s.path().clone()));
            all
        })
        .collect();
    assert_eq!(
        shape,
        vec![
            names(&["rising-1.png", "rising-2.png"]),
            names(&["falling-1.png", "falling-2.png"]),
            names(&["checks-1.png"]),
        ]
    );
}

#[test]
fn no_paths_make_empty_results_and_no_groups() {
    let local = SessionBuilder::from_images(Vec::new()).process_local(read);
    assert_eq!(local.len(), 0);
    let session = SessionBuilder::from_images(Vec::new())
        .process_multithread(Some(2))
        .expect("two threads are a valid count");
    assert!(session.is_complete());
    assert_eq!(session.pending(), 0);
    let results = session.into_results().expect("an empty session is complete");
    assert_eq!(results.len(), 0);
    let (images, errors) = results.split();
    assert!(images.is_empty());
    assert!(errors.is_empty());
    assert!(find_uniques(images, 2).is_empty());
}

#[test]
fn a_session_is_incomplete_until_every_path_is_in() {
    let mut session = SessionBuilder::from_images(names(&["rising.png", "missing.png"]))
        .process_multithread(Some(1))
        .expect("one thread is a valid count");
    let settings = session.settings();
    assert_eq!(session.pending(), 2);
    let mut batches = session.take_batches();
    assert!(session.take_batches().is_empty());
    let mut units = batches.remove(0);
    let second = units.remove(1);
    let first = units.remove(0);
    assert!(session.deliver(second.process(&settings, Err("gone".to_owned()))));
    assert_eq!(session.pending(), 1);
    assert!(!session.is_complete());
    assert!(session.deliver(first.process(&settings, read(&"rising.png".to_owned()))));
    assert_eq!(session.pending(), 0);
    assert!(session.is_complete());
    assert!(session.into_results().is_some());
}

#[test]
fn an_incomplete_session_has_no_results() {
    let session = SessionBuilder::from_images(names(&["rising.png"]))
        .process_multithread(Some(4))
        .expect("four threads are a valid count");
    assert!(!session.is_complete());
    assert!(session.into_results().is_none());
}

#[test]
fn the_collector_refuses_what_does_not_fit() {
    let mut session = SessionBuilder::from_images(names(&["a.png", "b.png"]))
        .process_multithread(Some(2))
        .expect("two threads are a valid count");
    let failed = |index: usize, path: &str| Completion {
        index,
        status: ImgStatus::Failed(path.to_owned(), "unreadable".to_owned()),
    };
    assert!(!session.deliver(failed(2, "a.png")));
    assert!(!session.deliver(failed(0, "b.png")));
    assert!(!session.deliver(Completion { index: 0, status: ImgStatus::Unhashed("a.png".to_owned()) }));
    assert_eq!(session.pending(), 2);
    assert!(session.deliver(failed(0, "a.png")));
    assert!(!session.deliver(failed(0, "a.png")));
    assert_eq!(session.pending(), 1);
    assert!(session.deliver(failed(1, "b.png")));
    let results = session.into_results().expect("both paths are in");
    assert_eq!(results.get(0).expect("an index in range").path(), "a.png");
    assert_eq!(results.get(1).expect("an index in range").path(), "b.png");
}

#[test]
fn results_split_in_input_order() {
    let results = ImgResults::from_statuses(vec![
        ImgStatus::Failed("a".to_owned(), "first".to_owned()),
        ImgStatus::Unhashed("b".to_owned()),
        ImgStatus::settle("c".to_owned(), Ok(vec![1])),
        ImgStatus::Failed("d".to_owned(), "second".to_owned()),
        ImgStatus::settle("e".to_owned(), Ok(vec![2])),
    ]);
    assert_eq!(results.len(), 5);
    let (images, errors) = results.split();
    let hashed: Vec<(String, Vec<u8>)> =
        images.iter().map(|i| (i.path().clone(), i.hash().clone())).collect();
    assert_eq!(hashed, vec![("c".to_owned(), vec![1u8]), ("e".to_owned(), vec![2u8])]);
    assert_eq!(
        errors,
        vec![("a".to_owned(), "first".to_owned()), ("d".to_owned(), "second".to_owned())]
    );
}

#[test]
fn results_hand_their_statuses_back() {
    let results = ImgResults::from_statuses(vec![
        ImgStatus::Unhashed("a".to_owned()),
        ImgStatus::Failed("b".to_owned(), "why".to_owned()),
    ]);
    let statuses = results.into_statuses();
    assert_eq!(statuses.len(), 2);
    assert_eq!(statuses[0].path(), "a");
    assert_eq!(statuses[1].path(), "b");
}

#[test]
fn hashes_of_a_session_have_the_length_that_the_settings_fix() {
    let (images, _) = SessionBuilder::from_images(mixed_paths()).process_local(read).split();
    assert_eq!(images.len(), 7);
    for hashed in &images {
        assert_eq!(hashed.hash().len(), 32);
    }
    let mut builder = SessionBuilder::from_images(mixed_paths());
    builder.hash_size(8).hash_type(HashType::DoubleGradient);
    let session = builder.process_multithread(Some(3)).expect("three threads are a valid count");
    let (images, _) = run(session, odd_ones_first).split();
    assert_eq!(images.len(), 7);
    for hashed in &images {
        assert_eq!(hashed.hash().len(), 5);
    }
}
