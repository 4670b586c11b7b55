use uci_oracle::options::{parse_uint_text, Options};

#[test]
fn advertisement_is_fixed_and_ordered() {
    let o = Options::default();
    let lines = o.format_uci_options();
    assert_eq!(lines.len(), 10);
    assert_eq!(lines[0], "option name Threads type spin default 1 min 1 max 256");
    assert_eq!(lines[1], "option name Debug type check default false");
    assert_eq!(lines[3], "option name APIModel type string default openai/gpt-oss-20b");
    assert_eq!(lines[6], "option name APIMaxTries type spin default 3");
    assert_eq!(lines[9], "option name AdditionalInstructionsFile type string default ");
}

#[test]
fn defaults() {
    let o = Options::default();
    assert_eq!(o.threads, 1);
    assert!(!o.debug);
    assert_eq!(o.apimaxtries, 3);
    assert_eq!(o.apikey, "<unset>");
    assert_eq!(o.additional_instructions, "");
}

#[test]
fn set_integer_options() {
    let mut o = Options::default();
    assert_eq!(o.set_by_name_value("Threads", "4"), Ok(()));
    assert_eq!(o.threads, 4);
    assert_eq!(o.set_by_name_value("APIMaxTries", "5"), Ok(()));
    assert_eq!(o.apimaxtries, 5);
    assert_eq!(o.set_by_name_value("APIMaxTries", "+7"), Ok(()));
    assert_eq!(o.apimaxtries, 7);
}

#[test]
fn refused_values_leave_options_unchanged() {
    let mut o = Options::default();
    assert_eq!(o.set_by_name_value("Threads", "0"), Err("number out of range 1..=256".to_string()));
    assert_eq!(o.set_by_name_value("Threads", "257"), Err("number out of range 1..=256".to_string()));
    assert_eq!(o.set_by_name_value("Threads", "abc"), Err("invalid digit found in string".to_string()));
    assert_eq!(o.set_by_name_value("Threads", ""), Err("cannot parse integer from empty string".to_string()));
    assert_eq!(o.set_by_name_value("APIMaxTries", "256"), Err("number too large to fit in target type".to_string()));
    assert_eq!(o.set_by_name_value("Debug", "yes"), Err("provided string was not `true` or `false`".to_string()));
    assert_eq!(o.threads, 1);
    assert_eq!(o.apimaxtries, 3);
    assert!(!o.debug);
}

#[test]
fn unknown_option() {
    let mut o = Options::default();
    assert_eq!(o.set_by_name_value("Hash", "16"), Err("Unknown option: Hash".to_string()));
}

#[test]
fn set_text_and_flag_options() {
    let mut o = Options::default();
    assert_eq!(o.set_by_name_value("APIModel", "some model"), Ok(()));
    assert_eq!(o.apimodel, "some model");
    assert_eq!(o.set_by_name_value("FenAsMarkdown", "true"), Ok(()));
    assert!(o.fenasmd);
}

#[test]
fn integer_parsing_matches_std() {
    for s in ["0", "65535", "65536", "+", "-1", "12a", "99999x", "+42", ""] {
        let mine = parse_uint_text(s, 65535).map(|n| n as u16).map_err(|e| e.to_string());
        let std = s.parse::<u16>().map_err(|e| e.to_string());
        assert_eq!(mine, std, "input {s:?}");
    }
}
