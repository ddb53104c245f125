use awsome::profiles::{collect_profiles_from_aws_config, collect_profiles_from_aws_credentials};

#[test]
fn config_profiles_are_read_from_profile_headings() {
    let content = "[profile dev]\n\
                   services = my-services\n\
                   \n\
                   [services my-services]\n\
                   dynamodb =\n\
                   \x20 endpoint_url = http://localhost:8000\n\
                   [profile prod]\n";
    let profiles = collect_profiles_from_aws_config(content).unwrap();
    assert_eq!(profiles, vec!["dev".to_string(), "prod".to_string()]);
}

#[test]
fn config_heading_without_the_profile_word_is_skipped() {
    let content = "[default]\n[services x]\n[profiles dev]\n";
    let profiles = collect_profiles_from_aws_config(content).unwrap();
    assert!(profiles.is_empty());
}

#[test]
fn config_profile_name_runs_to_the_last_bracket() {
    let content = "[profile my team]\n[profile a]b]\n";
    let profiles = collect_profiles_from_aws_config(content).unwrap();
    assert_eq!(profiles, vec!["my team".to_string(), "a]b".to_string()]);
}

#[test]
fn config_heading_needs_space_and_a_name() {
    let content = "[profile]\n[profile ]\n[profilex]\n";
    let profiles = collect_profiles_from_aws_config(content).unwrap();
    assert!(profiles.is_empty());
}

#[test]
fn config_heading_of_white_space_only_keeps_one_space_as_name() {
    // With the heading crowded right up against the bracket, the name
    // that remains is a single space.
    let profiles = collect_profiles_from_aws_config("[profile  ]").unwrap();
    assert_eq!(profiles, vec![" ".to_string()]);
}

#[test]
fn config_profiles_tolerate_carriage_returns() {
    let content = "[profile dev]\r\n[profile prod]\r\n";
    let profiles = collect_profiles_from_aws_config(content).unwrap();
    assert_eq!(profiles, vec!["dev".to_string(), "prod".to_string()]);
}

#[test]
fn empty_config_has_no_profiles() {
    assert!(collect_profiles_from_aws_config("").unwrap().is_empty());
}

#[test]
fn credentials_profiles_are_read_from_bracketed_headings() {
    let content = "[dev]\n\
                   aws_access_key_id = SECRET-REDACTED\n\
                   aws_secret_access_key = SECRET-REDACTED\n\
                   \n\
                   [prod]\n";
    let profiles = collect_profiles_from_aws_credentials(content).unwrap();
    assert_eq!(profiles, vec!["dev".to_string(), "prod".to_string()]);
}

#[test]
fn credentials_heading_must_open_the_line_and_name_something() {
    let content = "[]\nkey = value\n x[dev]\n";
    let profiles = collect_profiles_from_aws_credentials(content).unwrap();
    assert!(profiles.is_empty());
}

#[test]
fn credentials_name_runs_to_the_last_bracket() {
    let profiles = collect_profiles_from_aws_credentials("[a[b]c]\n").unwrap();
    assert_eq!(profiles, vec!["a[b]c".to_string()]);
}

#[test]
fn final_line_without_a_line_feed_still_counts() {
    let profiles = collect_profiles_from_aws_credentials("[dev]").unwrap();
    assert_eq!(profiles, vec!["dev".to_string()]);
}
