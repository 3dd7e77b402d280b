use post_endpoint::json::decode;
use post_endpoint::layout::{decimal_string, file_name, label_dir, result_path};
use post_endpoint::request::json_array;
use post_endpoint::{Action, Evaluation, PostEndpoint, RewardAccumulator};

#[test]
fn decimal_text_is_canonical() {
    assert_eq!(decimal_string(0), "0");
    assert_eq!(decimal_string(7), "7");
    assert_eq!(decimal_string(10), "10");
    assert_eq!(decimal_string(42), "42");
    assert_eq!(decimal_string(1_000_000), "1000000");
    assert_eq!(decimal_string(u64::MAX), "18446744073709551615");
    for n in [9u64, 99, 100, 101, 909, 65_535, 4_294_967_296] {
        assert_eq!(decimal_string(n), n.to_string());
    }
}

#[test]
fn paths_follow_the_layout() {
    assert_eq!(label_dir("out", "lighthouse"), "out/lighthouse");
    assert_eq!(file_name("nodeA", 42), "nodeA_42.json");
    assert_eq!(file_name("", 0), "_0.json");
    assert_eq!(result_path("out", "teku", "nodeB", 42), "out/teku/nodeB_42.json");
    assert_eq!(result_path("/var/data", "prysm", "n-1", 8_000_000), "/var/data/prysm/n-1_8000000.json");
}

#[test]
fn blocks_are_framed_as_one_array() {
    assert_eq!(json_array(&Vec::new()), b"[]");
    assert_eq!(json_array(&vec![b"{\"a\":1}".to_vec()]), b"[{\"a\":1}]");
    assert_eq!(
        json_array(&vec![b"1".to_vec(), b"\"two\"".to_vec(), b"[3]".to_vec()]),
        b"[1,\"two\",[3]]"
    );
    assert_eq!(json_array(&vec![Vec::new(), Vec::new()]), b"[,]");
}

#[test]
fn framed_blocks_parse_back_in_order() {
    let blocks: Vec<Vec<u8>> = (0..4u64)
        .map(|i| serde_json::to_vec(&serde_json::from_str::<serde_json::Value>(&format!("{{\"slot\":\"{}\"}}", i)).unwrap()).unwrap())
        .collect();
    let body = json_array(&blocks);
    let parsed: Vec<serde_json::Value> = serde_json::from_slice(&body).unwrap();
    assert_eq!(parsed.len(), 4);
    for (i, value) in parsed.iter().enumerate() {
        assert_eq!(value["slot"].as_str(), Some(i.to_string().as_str()));
        assert_eq!(serde_json::to_vec(value).unwrap(), blocks[i]);
    }
}

#[test]
fn strictly_higher_reward_replaces_the_winners() {
    let mut tally = RewardAccumulator::new();
    assert_eq!(tally.max_reward(), 0);
    assert!(tally.winners().is_empty());
    tally.record("a", 100);
    assert_eq!(tally.max_reward(), 100);
    assert_eq!(tally.winners(), &vec!["a".to_string()]);
    tally.record("b", 150);
    assert_eq!(tally.max_reward(), 150);
    assert_eq!(tally.winners(), &vec!["b".to_string()]);
}

#[test]
fn equal_reward_joins_the_winners() {
    let mut tally = RewardAccumulator::new();
    tally.record("a", 150);
    tally.record("b", 100);
    tally.record("c", 150);
    tally.record("a", 150);
    assert_eq!(tally.max_reward(), 150);
    assert_eq!(tally.winners(), &vec!["a".to_string(), "c".to_string(), "a".to_string()]);
    assert_eq!(tally.into_winners(), vec!["a".to_string(), "c".to_string(), "a".to_string()]);
}

#[test]
fn lower_reward_changes_nothing() {
    let mut tally = RewardAccumulator::new();
    tally.record("a", 5);
    tally.record("b", 4);
    assert_eq!(tally.max_reward(), 5);
    assert_eq!(tally.winners(), &vec!["a".to_string()]);
}

#[test]
fn rewards_of_zero_all_win() {
    let mut tally = RewardAccumulator::new();
    tally.record("a", 0);
    tally.record("b", 0);
    assert_eq!(tally.max_reward(), 0);
    assert_eq!(tally.winners(), &vec!["a".to_string(), "b".to_string()]);
}

#[test]
fn winners_are_the_positions_of_the_maximum() {
    let rewards = [3u64, 9, 1, 9, 0, 9, 8];
    let mut tally = RewardAccumulator::new();
    for (i, reward) in rewards.iter().enumerate() {
        tally.record(&format!("n{}", i), *reward);
    }
    let top = *rewards.iter().max().unwrap();
    let expected: Vec<String> = rewards
        .iter()
        .enumerate()
        .filter(|(_, r)| **r == top)
        .map(|(i, _)| format!("n{}", i))
        .collect();
    assert_eq!(tally.max_reward(), top);
    assert_eq!(tally.winners(), &expected);
}

#[test]
fn evaluation_reads_reward_and_compact_bytes() {
    let body = b"[ { \"attestation_rewards\" : { \"total\" : 100, \"head\": 1 }, \"x\": [1, 2] } ]";
    let results = decode(body).unwrap();
    assert_eq!(results.len(), 1);
    assert_eq!(results[0].reward, Some(100));
    assert_eq!(
        results[0].encoding.as_ref().unwrap(),
        &br#"{"attestation_rewards":{"head":1,"total":100},"x":[1,2]}"#.to_vec()
    );
}

#[test]
fn evaluation_without_reward_has_none() {
    for text in ["[null]", "[{}]", "[{\"attestation_rewards\":{}}]", "[{\"attestation_rewards\":{\"total\":null}}]", "[{\"total\":5}]"] {
        let results = decode(text.as_bytes()).unwrap();
        assert_eq!(results[0].reward, None, "text {}", text);
    }
    let big = decode(b"[{\"attestation_rewards\":{\"total\":18446744073709551615}}]").unwrap();
    assert_eq!(big[0].reward, Some(u64::MAX));
    let too_big = decode(b"[{\"attestation_rewards\":{\"total\":18446744073709551616}}]").unwrap();
    assert_eq!(too_big[0].reward, None);
}

#[test]
fn decode_gives_one_evaluation_per_element() {
    let results = decode(br#"[{"attestation_rewards":{"total":1}}, 2, {"attestation_rewards":{"total":3}}]"#).unwrap();
    assert_eq!(results.len(), 3);
    assert_eq!(results[0].reward, Some(1));
    assert_eq!(results[1].reward, None);
    assert_eq!(results[2].reward, Some(3));
    assert_eq!(results[1].encoding.as_ref().unwrap(), b"2");
    assert_eq!(results[0].encoding.as_ref().unwrap(), br#"{"attestation_rewards":{"total":1}}"#);
    assert!(decode(b"[]").unwrap().is_empty());
}

#[test]
fn decode_reports_the_parser_message() {
    assert_eq!(decode(b"").unwrap_err(), "EOF while parsing a value at line 1 column 0");
    assert_eq!(decode(b"[1,").unwrap_err(), "EOF while parsing a value at line 1 column 3");
    assert!(decode(b"[1] x").unwrap_err().starts_with("trailing characters"));
    assert!(decode(b"{}").unwrap_err().starts_with("invalid type: map, expected a sequence"));
}

#[test]
fn plan_on_given_evaluations() {
    let endpoint = PostEndpoint::new("u".to_string(), Some("out".to_string()), true);
    let nodes = vec![("nodeA".to_string(), "lighthouse".to_string()), ("nodeB".to_string(), "teku".to_string())];
    let results = vec![
        Evaluation { reward: Some(100), encoding: Ok(b"A".to_vec()) },
        Evaluation { reward: Some(100), encoding: Ok(b"B".to_vec()) },
    ];
    let script = endpoint.plan(&nodes, &results, 42);
    assert!(script.outcome.is_ok());
    assert_eq!(script.actions.len(), 7);
    assert!(matches!(&script.actions[2], Action::WriteFile { path, bytes } if path == "out/lighthouse/nodeA_42.json" && bytes == b"A"));
    assert!(matches!(&script.actions[5], Action::WriteFile { path, bytes } if path == "out/teku/nodeB_42.json" && bytes == b"B"));
    assert!(matches!(&script.actions[6], Action::ReportWinners { names }
        if names == &vec!["nodeA".to_string(), "nodeB".to_string()]));
}

#[test]
fn plan_without_nodes_is_empty() {
    let endpoint = PostEndpoint::new("u".to_string(), Some("out".to_string()), false);
    let results = vec![Evaluation { reward: None, encoding: Ok(b"1".to_vec()) }];
    let script = endpoint.plan(&Vec::new(), &results, 1);
    assert!(script.outcome.is_ok());
    assert!(script.actions.is_empty());
}

#[test]
fn endpoint_keeps_its_configuration() {
    let endpoint = PostEndpoint::new("http://host/eval".to_string(), Some("out".to_string()), true);
    assert_eq!(endpoint.url(), "http://host/eval");
    assert_eq!(endpoint.persistence_dir(), &Some("out".to_string()));
    assert!(endpoint.compare_rewards());
    let copy = endpoint.as_ref().clone();
    assert_eq!(copy.url(), "http://host/eval");
    assert_eq!(copy.persistence_dir(), &Some("out".to_string()));
    assert!(copy.compare_rewards());
    let bare = PostEndpoint::new(String::new(), None, false);
    assert_eq!(bare.persistence_dir(), &None);
    assert!(!bare.compare_rewards());
}
