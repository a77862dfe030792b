use chain_verse::poem_generator::{GenerationError, PoemGenerator, RetrySchedule};

#[test]
fn test_create_prompt() {
    let generator = PoemGenerator::new("test_key".to_string(), "test_model".to_string());

    let keywords = vec!["moon".to_string(), "silence".to_string(), "journey".to_string()];
    let prompt = generator.create_prompt(&keywords);

    assert!(prompt.contains("moon"));
    assert!(prompt.contains("silence"));
    assert!(prompt.contains("journey"));
    assert!(prompt.contains("20-30 lines"));
}

#[test]
fn test_prompt_joins_keywords_in_order() {
    let generator = PoemGenerator::new("k".to_string(), "m".to_string());
    let prompt = generator.create_prompt(&vec!["ember".to_string(), "drift".to_string()]);
    assert!(prompt.contains("Keywords: ember, drift\n"));
}

#[test]
fn test_generator_accessors() {
    let generator = PoemGenerator::new("test_key".to_string(), "test_model".to_string());
    assert_eq!(generator.api_key(), "test_key");
    assert_eq!(generator.model(), "test_model");
}

#[test]
fn test_retry_succeeds_after_two_failures() {
    // An endpoint failing twice then succeeding: three calls in all, with
    // 2 + 4 = 6 seconds of backoff asked for, and the successful content.
    let mut run = RetrySchedule::new(3);
    let mut calls = 0u32;
    let mut total_delay = 0u64;
    loop {
        match run.next_delay() {
            None => break,
            Some(delay) => {
                total_delay += delay;
                calls += 1;
                if calls < 3 {
                    run.record_failure(format!("error {}", calls));
                } else {
                    run.record_success("a poem".to_string());
                }
            }
        }
    }
    assert_eq!(calls, 3);
    assert_eq!(total_delay, 6);
    assert_eq!(run.finish().unwrap(), "a poem");
}

#[test]
fn test_retry_exhausted_after_three_failures() {
    // An endpoint that always fails: exactly three calls, then the
    // exhausted-retries failure carrying the last error.
    let mut run = RetrySchedule::new(3);
    let mut calls = 0u32;
    let mut delays = Vec::new();
    loop {
        match run.next_delay() {
            None => break,
            Some(delay) => {
                delays.push(delay);
                calls += 1;
                run.record_failure(format!("error {}", calls));
            }
        }
    }
    assert_eq!(calls, 3);
    assert_eq!(delays, vec![0, 2, 4]);
    match run.finish() {
        Err(GenerationError::ExhaustedRetries { last_error }) => {
            assert_eq!(last_error, "error 3");
        }
        Ok(_) => panic!("run must not succeed"),
    }
}

#[test]
fn test_retry_immediate_success() {
    let mut run = RetrySchedule::new(3);
    let delay = run.next_delay().unwrap();
    assert_eq!(delay, 0);
    run.record_success("done".to_string());
    assert!(run.next_delay().is_none());
    assert_eq!(run.finish().unwrap(), "done");
}

#[test]
fn test_exhausted_message_without_attempts() {
    let run = RetrySchedule::new(0);
    match run.finish() {
        Err(GenerationError::ExhaustedRetries { last_error }) => {
            assert_eq!(last_error, "Failed after 0 attempts");
        }
        Ok(_) => panic!("run must not succeed"),
    }
}
