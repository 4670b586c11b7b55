use uci_oracle::args::{consume_args, process_keyword};

fn v(s: &[&str]) -> Vec<String> {
    s.iter().map(|x| x.to_string()).collect()
}

#[test]
fn consume_drops_first() {
    assert_eq!(consume_args(v(&["go", "infinite"])), v(&["infinite"]));
}

#[test]
fn keyword_value_until_next_keyword() {
    let a = v(&["searchmoves", "e2e4", "d2d4", "wtime", "100", "btime", "200"]);
    assert_eq!(process_keyword(&a, "searchmoves".to_string()), Some("e2e4 d2d4".to_string()));
    assert_eq!(process_keyword(&a, "wtime".to_string()), Some("100".to_string()));
    assert_eq!(process_keyword(&a, "btime".to_string()), Some("200".to_string()));
    assert_eq!(process_keyword(&a, "depth".to_string()), None);
}

#[test]
fn keyword_without_value() {
    let a = v(&["infinite", "depth", "5"]);
    assert_eq!(process_keyword(&a, "infinite".to_string()), None);
    assert_eq!(process_keyword(&a, "depth".to_string()), Some("5".to_string()));
}
