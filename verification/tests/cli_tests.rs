use dhchat::cli::{parse_command, Command};

fn args(list: &[&str]) -> Vec<String> {
    list.iter().map(|s| s.to_string()).collect()
}

#[test]
fn cli_server_with_port() {
    match parse_command(&args(&["server", "8080"])) {
        Ok(Command::Server(port)) => assert_eq!(port, 8080),
        other => panic!("unexpected: {:?}", other),
    }
}

#[test]
fn cli_client_with_address() {
    match parse_command(&args(&["client", "127.0.0.1:8080"])) {
        Ok(Command::Client(addr)) => assert_eq!(addr, "127.0.0.1:8080"),
        other => panic!("unexpected: {:?}", other),
    }
}

#[test]
fn cli_help_flags() {
    assert!(matches!(parse_command(&args(&["-h"])), Ok(Command::Help)));
    assert!(matches!(
        parse_command(&args(&["--help"])),
        Ok(Command::Help)
    ));
}

#[test]
fn cli_missing_subcommand() {
    assert_eq!(parse_command(&args(&[])), Err("missing subcommand".to_string()));
}

#[test]
fn cli_server_missing_port() {
    assert_eq!(
        parse_command(&args(&["server"])),
        Err("server requires PORT".to_string())
    );
}

#[test]
fn cli_invalid_port() {
    assert_eq!(
        parse_command(&args(&["server", "notaport"])),
        Err("invalid PORT".to_string())
    );
    assert_eq!(
        parse_command(&args(&["server", "65536"])),
        Err("invalid PORT".to_string())
    );
    assert_eq!(
        parse_command(&args(&["server", ""])),
        Err("invalid PORT".to_string())
    );
}

#[test]
fn cli_client_missing_address() {
    assert_eq!(
        parse_command(&args(&["client"])),
        Err("client requires ADDRESS".to_string())
    );
}

#[test]
fn cli_unknown_subcommand() {
    assert_eq!(
        parse_command(&args(&["peer", "8080"])),
        Err("expected 'server PORT' or 'client ADDRESS'".to_string())
    );
}
