use rvm::error::RvmError;
use rvm::watch::{parse_watch_args, WatchArgs};

fn strings(v: &[&str]) -> Vec<String> {
    v.iter().map(|s| s.to_string()).collect()
}

#[test]
fn plain_command_with_interval() {
    assert_eq!(
        parse_watch_args(&strings(&["cargo", "run", "-3", "--release"])),
        Ok(WatchArgs { command: "cargo".to_string(), args: strings(&["run", "--release"]), interval: Some(3) })
    );
}

#[test]
fn last_interval_wins() {
    assert_eq!(
        parse_watch_args(&strings(&["make", "-2", "all", "-10"])),
        Ok(WatchArgs { command: "make".to_string(), args: strings(&["-2", "all"]), interval: Some(10) })
    );
}

#[test]
fn quoted_command_is_split_into_words() {
    assert_eq!(
        parse_watch_args(&strings(&["npm  run dev", "-5"])),
        Ok(WatchArgs { command: "npm".to_string(), args: strings(&["run", "dev"]), interval: Some(5) })
    );
}

#[test]
fn no_interval_and_flags_that_are_not_intervals() {
    assert_eq!(
        parse_watch_args(&strings(&["ls", "-l", "-", "-99999999999999999999"])),
        Ok(WatchArgs {
            command: "ls".to_string(),
            args: strings(&["-l", "-", "-99999999999999999999"]),
            interval: None
        })
    );
}

#[test]
fn missing_command() {
    assert_eq!(parse_watch_args(&vec![]), Err(RvmError::MissingArgument("command".to_string())));
    assert_eq!(parse_watch_args(&strings(&["   "])), Err(RvmError::MissingArgument("command".to_string())));
}

#[test]
fn given_words_are_used_for_a_quoted_command() {
    let args = strings(&["cargo  test", "-2", "--all"]);
    let words = strings(&["cargo", "test"]);
    assert_eq!(
        rvm::watch::parse_watch_args_with(&args, &words),
        Ok(WatchArgs { command: "cargo".to_string(), args: strings(&["test", "--all"]), interval: Some(2) })
    );
    assert_eq!(
        rvm::watch::parse_watch_args_with(&strings(&["make", "-1"]), &vec![]),
        Ok(WatchArgs { command: "make".to_string(), args: vec![], interval: Some(1) })
    );
}
