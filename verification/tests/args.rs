use nixvm::{parse_pairs, Error};

fn texts(v: &[&str]) -> Vec<String> {
    v.iter().map(|s| s.to_string()).collect()
}

#[test]
fn arguments_are_paired() {
    let pairs = parse_pairs("--option", texts(&["a", "1", "b", "2"])).unwrap();
    assert_eq!(
        pairs,
        vec![
            ("a".to_string(), "1".to_string()),
            ("b".to_string(), "2".to_string())
        ]
    );
    assert!(parse_pairs("--option", Vec::new()).unwrap().is_empty());
}

#[test]
fn an_odd_argument_is_refused() {
    let e = parse_pairs("--override-input", texts(&["nixpkgs"])).unwrap_err();
    assert_eq!(e.text, "--override-input requires two arguments per use");
}

#[test]
fn errors_read_from_the_outside_in() {
    let e = Error::of("open /dev/null", "permission denied").within("detach into daemon");
    assert_eq!(e.text, "detach into daemon: open /dev/null: permission denied");
    assert_eq!(
        e.report(),
        "nixvm: detach into daemon: open /dev/null: permission denied"
    );
}
