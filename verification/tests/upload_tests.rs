use augmcp::blob::BlobUpload;
use augmcp::upload::{batch_bytes, RetryPolicy, UploadRun};

#[test]
fn upload_progress_events_for_five_items_in_batches_of_two() {
    // 5 blobs with batch_size=2 -> 3 batches
    let mut run = UploadRun::new(5, 2, RetryPolicy::upload_default());
    let mut chunk_indexes = Vec::new();
    let mut uploaded_counts = Vec::new();

    while let Some((start, end)) = run.current_batch() {
        let names: Vec<String> = (start..end).map(|i| format!("n{i}")).collect();
        let ev = run.on_batch_success(names, 8 * (end - start));
        assert_eq!(ev.chunks_total, 3, "expected 3 chunks for 5 items with batch_size=2");
        assert_eq!(ev.total_items, 5);
        assert_eq!(ev.chunk_items, end - start);
        chunk_indexes.push(ev.chunk_index);
        uploaded_counts.push(ev.uploaded_items);
    }
    assert_eq!(chunk_indexes, vec![1, 2, 3]);
    assert_eq!(uploaded_counts, vec![2, 4, 5]);
    assert!(!run.is_given_up());
    let names = run.into_names();
    assert_eq!(names.len(), 5);
    assert_eq!(names[0], "n0");
    assert_eq!(names[4], "n4");
}

#[test]
fn empty_input_short_circuits_with_no_batches() {
    let run = UploadRun::new(0, 10, RetryPolicy::upload_default());
    assert!(run.current_batch().is_none());
    assert!(!run.is_given_up());
    assert!(run.into_names().is_empty());
}

#[test]
fn batch_size_one_sends_item_by_item() {
    let mut run = UploadRun::new(3, 1, RetryPolicy::upload_default());
    assert_eq!(run.current_batch(), Some((0, 1)));
    run.on_batch_success(vec!["a".to_string()], 1);
    assert_eq!(run.current_batch(), Some((1, 2)));
    run.on_batch_success(vec!["b".to_string()], 1);
    assert_eq!(run.current_batch(), Some((2, 3)));
    run.on_batch_success(vec!["c".to_string()], 1);
    assert_eq!(run.current_batch(), None);
}

#[test]
fn retries_back_off_exponentially_then_give_up() {
    let mut run = UploadRun::new(4, 2, RetryPolicy::upload_default());
    assert!(run.current_batch().is_some());
    assert_eq!(run.on_batch_failure(), Some(1000));
    assert_eq!(run.on_batch_failure(), Some(2000));
    assert_eq!(run.on_batch_failure(), None, "the third failure exhausts 3 attempts");
    assert!(run.is_given_up());
    assert!(run.current_batch().is_none(), "remaining batches are abandoned");
}

#[test]
fn a_success_resets_the_failure_count() {
    let mut run = UploadRun::new(4, 2, RetryPolicy::upload_default());
    assert_eq!(run.on_batch_failure(), Some(1000));
    run.on_batch_success(vec!["x".to_string(), "y".to_string()], 4);
    assert_eq!(run.on_batch_failure(), Some(1000), "the next batch starts fresh");
}

#[test]
fn retrieval_policy_backs_off_from_two_seconds() {
    let policy = RetryPolicy::retrieval_default();
    assert_eq!(policy.delay_after_failure(0), Some(2000));
    assert_eq!(policy.delay_after_failure(1), Some(4000));
    assert_eq!(policy.delay_after_failure(2), None);
}

#[test]
fn batch_bytes_sums_content_lengths() {
    let blobs: Vec<BlobUpload> = (0..5)
        .map(|i| BlobUpload { path: format!("f{i}.txt"), content: format!("c{i}") })
        .collect();
    assert_eq!(batch_bytes(&blobs, 0, 2), 4);
    assert_eq!(batch_bytes(&blobs, 4, 5), 2);
    assert_eq!(batch_bytes(&blobs, 0, 0), 0);
    let wide = vec![BlobUpload { path: "u.txt".to_string(), content: "héllo".to_string() }];
    assert_eq!(batch_bytes(&wide, 0, 1), 6, "byte length, not character count");
}
