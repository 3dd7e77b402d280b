use post_endpoint::{Action, Event, PostEndpoint, PostError, Submission};

fn nodes(pairs: &[(&str, &str)]) -> Vec<(String, String)> {
    pairs.iter().map(|(n, l)| (n.to_string(), l.to_string())).collect()
}

fn accept(submission: &mut Submission, body: &str) -> Action {
    let read = submission.step(Event::Responded { status: 200 }).unwrap();
    assert!(matches!(read, Action::ReadBody));
    submission.step(Event::Body { bytes: body.as_bytes().to_vec() }).unwrap()
}

fn drain(submission: &mut Submission, first: Action) -> (Vec<Action>, Result<(), PostError>) {
    let mut seen = Vec::new();
    let mut action = first;
    loop {
        match action {
            Action::Finish { outcome } => return (seen, outcome),
            other => {
                seen.push(other);
                action = submission.step(Event::Completed).unwrap();
            }
        }
    }
}

const TWO: &str = r#"[{"attestation_rewards":{"total":100}}, {"attestation_rewards":{"total":150}}]"#;

#[test]
fn two_nodes_are_compared_and_persisted() {
    let endpoint = PostEndpoint::new("http://host/eval".to_string(), Some("out".to_string()), true);
    let (mut submission, send) = endpoint.post_blocks(
        nodes(&[("nodeA", "lighthouse"), ("nodeB", "teku")]),
        vec![b"{\"slot\":\"42\"}".to_vec(), b"{\"slot\":\"42\"}".to_vec()],
        42,
    );
    match send {
        Action::Send { url, body } => {
            assert_eq!(url, "http://host/eval");
            assert_eq!(body, b"[{\"slot\":\"42\"},{\"slot\":\"42\"}]".to_vec());
        }
        other => panic!("unexpected first action {:?}", other),
    }
    let first = accept(&mut submission, TWO);
    let (seen, outcome) = drain(&mut submission, first);
    assert!(outcome.is_ok());
    assert!(submission.is_done());
    assert_eq!(seen.len(), 7);
    assert!(matches!(&seen[0], Action::ReportReward { name, reward } if name == "nodeA" && *reward == 100));
    assert!(matches!(&seen[1], Action::EnsureDir { path } if path == "out/lighthouse"));
    assert!(matches!(&seen[2], Action::WriteFile { path, bytes }
        if path == "out/lighthouse/nodeA_42.json"
            && bytes == br#"{"attestation_rewards":{"total":100}}"#));
    assert!(matches!(&seen[3], Action::ReportReward { name, reward } if name == "nodeB" && *reward == 150));
    assert!(matches!(&seen[4], Action::EnsureDir { path } if path == "out/teku"));
    assert!(matches!(&seen[5], Action::WriteFile { path, bytes }
        if path == "out/teku/nodeB_42.json"
            && bytes == br#"{"attestation_rewards":{"total":150}}"#));
    assert!(matches!(&seen[6], Action::ReportWinners { names } if names == &vec!["nodeB".to_string()]));
}

#[test]
fn refused_batch_fails_with_the_response_text() {
    let endpoint = PostEndpoint::new("http://host/eval".to_string(), Some("out".to_string()), true);
    let (mut submission, _send) =
        endpoint.post_blocks(nodes(&[("nodeA", "lighthouse")]), vec![b"{}".to_vec()], 42);
    let read = submission.step(Event::Responded { status: 500 }).unwrap();
    assert!(matches!(read, Action::ReadFailureText));
    let end = submission
        .step(Event::FailureText { text: Some("internal error".to_string()) })
        .unwrap();
    match end {
        Action::Finish { outcome: Err(PostError::HttpStatus { body }) } => {
            assert_eq!(body, "internal error");
            let message = PostError::HttpStatus { body }.message();
            assert!(message.contains("internal error"));
        }
        other => panic!("unexpected action {:?}", other),
    }
    assert!(submission.is_done());
    assert!(submission.step(Event::Completed).is_none());
}

#[test]
fn refused_batch_with_unreadable_text_is_garbled() {
    let endpoint = PostEndpoint::new("u".to_string(), None, false);
    let (mut submission, _send) = endpoint.post_blocks(Vec::new(), Vec::new(), 0);
    submission.step(Event::Responded { status: 404 }).unwrap();
    let end = submission.step(Event::FailureText { text: None }).unwrap();
    assert!(matches!(end, Action::Finish { outcome: Err(PostError::HttpStatus { body }) }
        if body == "<body garbled>"));
}

#[test]
fn empty_batch_is_still_sent_and_writes_nothing() {
    let endpoint = PostEndpoint::new("http://host/eval".to_string(), Some("out".to_string()), false);
    let (mut submission, send) = endpoint.post_blocks(Vec::new(), Vec::new(), 7);
    assert!(matches!(send, Action::Send { url, body } if url == "http://host/eval" && body == b"[]"));
    let first = accept(&mut submission, "[]");
    let (seen, outcome) = drain(&mut submission, first);
    assert!(outcome.is_ok());
    assert!(seen.is_empty());
}

#[test]
fn empty_batch_with_comparison_reports_no_winner() {
    let endpoint = PostEndpoint::new("u".to_string(), Some("out".to_string()), true);
    let (mut submission, _send) = endpoint.post_blocks(Vec::new(), Vec::new(), 7);
    let first = accept(&mut submission, TWO);
    let (seen, outcome) = drain(&mut submission, first);
    assert!(outcome.is_ok());
    assert_eq!(seen.len(), 1);
    assert!(matches!(&seen[0], Action::ReportWinners { names } if names.is_empty()));
}

#[test]
fn three_nodes_two_results_handles_two_pairs() {
    let endpoint = PostEndpoint::new("u".to_string(), Some("d".to_string()), true);
    let (mut submission, _send) = endpoint.post_blocks(
        nodes(&[("a", "x"), ("b", "y"), ("c", "z")]),
        vec![b"1".to_vec(), b"2".to_vec(), b"3".to_vec()],
        5,
    );
    let first = accept(&mut submission, TWO);
    let (seen, outcome) = drain(&mut submission, first);
    assert!(outcome.is_ok());
    let written: Vec<&String> = seen
        .iter()
        .filter_map(|a| match a {
            Action::WriteFile { path, .. } => Some(path),
            _ => None,
        })
        .collect();
    assert_eq!(written, vec!["d/x/a_5.json", "d/y/b_5.json"]);
    let reported = seen.iter().filter(|a| matches!(a, Action::ReportReward { .. })).count();
    assert_eq!(reported, 2);
    assert!(matches!(seen.last(), Some(Action::ReportWinners { names }) if names == &vec!["b".to_string()]));
}

#[test]
fn two_nodes_three_results_ignores_the_extra_result() {
    let endpoint = PostEndpoint::new("u".to_string(), Some("d".to_string()), false);
    let (mut submission, _send) =
        endpoint.post_blocks(nodes(&[("a", "x"), ("b", "y")]), Vec::new(), 5);
    let first = accept(&mut submission, "[1, 2, 3]");
    let (seen, outcome) = drain(&mut submission, first);
    assert!(outcome.is_ok());
    assert_eq!(seen.len(), 4);
    assert!(matches!(&seen[1], Action::WriteFile { path, bytes } if path == "d/x/a_5.json" && bytes == b"1"));
    assert!(matches!(&seen[3], Action::WriteFile { path, bytes } if path == "d/y/b_5.json" && bytes == b"2"));
}

#[test]
fn every_pair_is_handled_once_in_input_order() {
    let endpoint = PostEndpoint::new("u".to_string(), Some("d".to_string()), true);
    let (mut submission, _send) = endpoint.post_blocks(
        nodes(&[("n0", "l0"), ("n1", "l1"), ("n2", "l2")]),
        vec![b"{}".to_vec(), b"{}".to_vec(), b"{}".to_vec()],
        9,
    );
    let body = r#"[{"attestation_rewards":{"total":3}},{"attestation_rewards":{"total":2}},{"attestation_rewards":{"total":1}}]"#;
    let first = accept(&mut submission, body);
    let (seen, outcome) = drain(&mut submission, first);
    assert!(outcome.is_ok());
    assert_eq!(seen.len(), 10);
    for i in 0..3usize {
        let name = format!("n{}", i);
        let dir = format!("d/l{}", i);
        let file = format!("d/l{}/n{}_9.json", i, i);
        let reward = 3 - i as u64;
        assert!(matches!(&seen[3 * i], Action::ReportReward { name: n, reward: r } if *n == name && *r == reward));
        assert!(matches!(&seen[3 * i + 1], Action::EnsureDir { path } if *path == dir));
        assert!(matches!(&seen[3 * i + 2], Action::WriteFile { path, .. } if *path == file));
    }
    assert!(matches!(&seen[9], Action::ReportWinners { names } if names == &vec!["n0".to_string()]));
}

#[test]
fn same_submission_twice_asks_for_the_same_files() {
    let endpoint = PostEndpoint::new("u".to_string(), Some("out".to_string()), true);
    let mut runs = Vec::new();
    for _ in 0..2 {
        let (mut submission, _send) = endpoint.post_blocks(
            nodes(&[("nodeA", "lighthouse"), ("nodeB", "teku")]),
            vec![b"{}".to_vec(), b"{}".to_vec()],
            42,
        );
        let first = accept(&mut submission, TWO);
        let (seen, outcome) = drain(&mut submission, first);
        assert!(outcome.is_ok());
        let files: Vec<(String, Vec<u8>)> = seen
            .into_iter()
            .filter_map(|a| match a {
                Action::WriteFile { path, bytes } => Some((path, bytes)),
                _ => None,
            })
            .collect();
        runs.push(files);
    }
    assert_eq!(runs[0].len(), 2);
    assert_eq!(runs[0], runs[1]);
}

#[test]
fn shared_label_directory_is_ensured_for_each_node() {
    let endpoint = PostEndpoint::new("u".to_string(), Some("out".to_string()), false);
    let (mut submission, _send) =
        endpoint.post_blocks(nodes(&[("a", "teku"), ("b", "teku")]), Vec::new(), 1);
    let first = accept(&mut submission, "[null, null]");
    let (seen, outcome) = drain(&mut submission, first);
    assert!(outcome.is_ok());
    assert!(matches!(&seen[0], Action::EnsureDir { path } if path == "out/teku"));
    assert!(matches!(&seen[2], Action::EnsureDir { path } if path == "out/teku"));
    assert!(matches!(&seen[3], Action::WriteFile { path, bytes } if path == "out/teku/b_1.json" && bytes == b"null"));
}

#[test]
fn without_directory_nothing_is_persisted() {
    let endpoint = PostEndpoint::new("u".to_string(), None, true);
    let (mut submission, _send) =
        endpoint.post_blocks(nodes(&[("nodeA", "lighthouse"), ("nodeB", "teku")]), Vec::new(), 42);
    let first = accept(&mut submission, TWO);
    let (seen, outcome) = drain(&mut submission, first);
    assert!(outcome.is_ok());
    assert_eq!(seen.len(), 3);
    assert!(seen.iter().all(|a| !matches!(a, Action::EnsureDir { .. } | Action::WriteFile { .. })));
}

#[test]
fn without_comparison_missing_rewards_do_not_matter() {
    let endpoint = PostEndpoint::new("u".to_string(), Some("o".to_string()), false);
    let (mut submission, _send) = endpoint.post_blocks(nodes(&[("a", "l")]), Vec::new(), 3);
    let first = accept(&mut submission, r#"[{"other":true}]"#);
    let (seen, outcome) = drain(&mut submission, first);
    assert!(outcome.is_ok());
    assert_eq!(seen.len(), 2);
    assert!(matches!(&seen[1], Action::WriteFile { path, bytes } if path == "o/l/a_3.json" && bytes == br#"{"other":true}"#));
}
