use snap_coin_miner::options::{
    config_created_message, parse_options, resolve_thread_count, DEFAULT_CONFIG,
};

fn args(words: &[&str]) -> Vec<String> {
    words.iter().map(|w| w.to_string()).collect()
}

#[test]
fn defaults() {
    let options = parse_options(&args(&["miner"]));
    assert_eq!(options.config_path, "./miner.toml");
    assert!(options.full_dataset);
    assert!(options.full_pages);
    assert!(!options.is_pool);
    let none = parse_options(&args(&[]));
    assert_eq!(none.config_path, "./miner.toml");
}

#[test]
fn every_flag_counts_wherever_it_stands() {
    let options = parse_options(&args(&["miner", "--no-full-pages", "x", "--pool", "--no-dataset"]));
    assert!(!options.full_dataset);
    assert!(!options.full_pages);
    assert!(options.is_pool);
}

#[test]
fn the_config_path_follows_its_flag() {
    let options = parse_options(&args(&["miner", "--config", "a.toml"]));
    assert_eq!(options.config_path, "a.toml");
    assert!(!options.is_pool);
}

#[test]
fn the_last_config_wins() {
    let options = parse_options(&args(&["miner", "--config", "a", "--config", "b"]));
    assert_eq!(options.config_path, "b");
}

#[test]
fn a_config_flag_at_the_end_is_passed_over() {
    let options = parse_options(&args(&["miner", "--config", "a", "--config"]));
    assert_eq!(options.config_path, "a");
    let alone = parse_options(&args(&["miner", "--config"]));
    assert_eq!(alone.config_path, "./miner.toml");
}

#[test]
fn a_path_that_reads_like_a_flag_is_both() {
    let options = parse_options(&args(&["miner", "--config", "--pool"]));
    assert_eq!(options.config_path, "--pool");
    assert!(options.is_pool);
}

#[test]
fn unknown_arguments_are_passed_over() {
    let options = parse_options(&args(&["miner", "--pools", "-pool", "pool", "--POOL"]));
    assert!(!options.is_pool);
}

#[test]
fn thread_counts() {
    assert_eq!(resolve_thread_count(-1, 8), 8);
    assert_eq!(resolve_thread_count(3, 8), 3);
    assert_eq!(resolve_thread_count(0, 8), 0);
    assert_eq!(resolve_thread_count(-2, 8), -2);
}

#[test]
fn the_message_about_a_new_config() {
    assert_eq!(
        config_created_message("./miner.toml"),
        "Created new config file: ./miner.toml. Please replace <your public wallet address> in the config with your real miner address"
    );
}

#[test]
fn the_config_to_complete() {
    let lines: Vec<&str> = DEFAULT_CONFIG.split('\n').collect();
    assert_eq!(
        lines,
        vec![
            "[node]",
            "address = \"127.0.0.1:3003\"",
            "",
            "[miner]",
            "public = \"<your public wallet address>\"",
            "",
            "[threads]",
            "count = 1",
        ]
    );
}
