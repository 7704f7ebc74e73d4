use eocc_core::state::Transport;
use eocc_core::tmux::{
    build_ssh_args, command_result, panes_from_output, capture_pane_args, list_panes_args, pane_size_args, parse_pane_list,
    parse_pane_size, plan_via_transport, send_keys_args, validate_pane_id, validate_ssh_host,
    validate_ssh_user,
};

fn strings(v: &[&str]) -> Vec<String> {
    v.iter().map(|s| s.to_string()).collect()
}

#[test]
fn pane_ids_are_percent_and_digits() {
    assert!(validate_pane_id("%0").is_ok());
    assert!(validate_pane_id("%123").is_ok());
    assert_eq!(validate_pane_id("%").unwrap_err(), "Invalid pane ID format: %");
    assert_eq!(validate_pane_id("12").unwrap_err(), "Invalid pane ID format: 12");
    assert!(validate_pane_id("%1;rm").is_err());
    assert!(validate_pane_id("").is_err());
}

#[test]
fn ssh_hosts_and_users_are_checked() {
    assert!(validate_ssh_host("example.com").is_ok());
    assert!(validate_ssh_host("[::1]:22").is_ok());
    assert_eq!(validate_ssh_host("").unwrap_err(), "SSH host cannot be empty");
    assert_eq!(
        validate_ssh_host("-oProxy").unwrap_err(),
        "SSH host must not start with '-': -oProxy"
    );
    assert_eq!(
        validate_ssh_host("a b").unwrap_err(),
        "SSH host contains invalid characters: a b"
    );
    assert!(validate_ssh_user("deploy_user.1").is_ok());
    assert_eq!(validate_ssh_user("").unwrap_err(), "SSH user cannot be empty");
    assert_eq!(
        validate_ssh_user("-x").unwrap_err(),
        "SSH user must not start with '-': -x"
    );
    assert_eq!(
        validate_ssh_user("a@b").unwrap_err(),
        "SSH user contains invalid characters: a@b"
    );
}

#[test]
fn ssh_args_carry_options_port_and_target() {
    let args = build_ssh_args("host", 2222, &Some("bob".to_string()), &Some("/k".to_string()))
        .unwrap();
    assert_eq!(
        args,
        strings(&[
            "-o",
            "BatchMode=yes",
            "-o",
            "ConnectTimeout=5",
            "-i",
            "/k",
            "-p",
            "2222",
            "bob@host"
        ])
    );
    let args = build_ssh_args("host", 22, &None, &None).unwrap();
    assert_eq!(
        args,
        strings(&["-o", "BatchMode=yes", "-o", "ConnectTimeout=5", "-p", "22", "host"])
    );
    assert!(build_ssh_args("host", 22, &Some("bad user".to_string()), &None).is_err());
}

#[test]
fn commands_go_through_the_transport() {
    let args = strings(&["list-panes"]);
    let local = plan_via_transport(&Transport::Local {}, "tmux", &args, false).unwrap();
    assert_eq!(local.program, "tmux");
    assert_eq!(local.args, args);

    let mosh = Transport::Mosh { host: "m".to_string(), port: 2200, user: None };
    let plan = plan_via_transport(&mosh, "tmux", &args, false).unwrap();
    assert_eq!(plan.program, "ssh");
    assert_eq!(
        plan.args,
        strings(&["-o", "BatchMode=yes", "-o", "ConnectTimeout=5", "-p", "2200", "m", "tmux", "list-panes"])
    );

    let ts = Transport::Tailscale {
        host: "ts".to_string(),
        user: Some("u".to_string()),
        identity_file: Some("/id".to_string()),
    };
    let plan = plan_via_transport(&ts, "tmux", &args, true).unwrap();
    assert_eq!(plan.program, "tailscale");
    assert_eq!(plan.args, strings(&["ssh", "u@ts", "tmux", "list-panes"]));
    let plan = plan_via_transport(&ts, "tmux", &args, false).unwrap();
    assert_eq!(plan.program, "ssh");
    assert_eq!(
        plan.args,
        strings(&[
            "-o",
            "BatchMode=yes",
            "-o",
            "ConnectTimeout=5",
            "-i",
            "/id",
            "-p",
            "22",
            "u@ts",
            "tmux",
            "list-panes"
        ])
    );

    let bad = Transport::Ssh {
        host: "-bad".to_string(),
        port: 22,
        user: None,
        identity_file: None,
    };
    assert_eq!(
        plan_via_transport(&bad, "tmux", &args, false).unwrap_err(),
        "SSH host must not start with '-': -bad"
    );
}

#[test]
fn tmux_arguments_for_each_request() {
    assert_eq!(
        capture_pane_args("%4").unwrap(),
        strings(&["capture-pane", "-p", "-e", "-S", "-", "-E", "-", "-t", "%4"])
    );
    assert_eq!(
        send_keys_args("%4", "ls Enter").unwrap(),
        strings(&["send-keys", "-t", "%4", "ls Enter"])
    );
    assert_eq!(
        pane_size_args("%4").unwrap(),
        strings(&["display-message", "-p", "-t", "%4", "#{pane_width}x#{pane_height}"])
    );
    assert!(capture_pane_args("4").is_err());
    assert!(send_keys_args("%x", "q").is_err());
    assert_eq!(list_panes_args().len(), 4);
    assert_eq!(list_panes_args()[0], "list-panes");
}

#[test]
fn pane_list_output_is_parsed() {
    let out = "main|0|editor|0|%0|1\nmain|1|logs|2|%5|0\nbroken|line\nw|x|n|y|%9|1|extra\n";
    let panes = parse_pane_list(out);
    assert_eq!(panes.len(), 3);
    assert_eq!(panes[0].session_name, "main");
    assert_eq!(panes[0].window_name, "editor");
    assert_eq!(panes[0].pane_id, "%0");
    assert!(panes[0].is_active);
    assert_eq!(panes[1].window_index, 1);
    assert_eq!(panes[1].pane_index, 2);
    assert!(!panes[1].is_active);
    assert_eq!(panes[2].window_index, 0);
    assert_eq!(panes[2].pane_index, 0);
    assert_eq!(panes[2].pane_id, "%9");
    assert!(parse_pane_list("").is_empty());
}

#[test]
fn pane_size_output_is_parsed() {
    let s = parse_pane_size("  120x40\n").unwrap();
    assert_eq!((s.width, s.height), (120, 40));
    let s = parse_pane_size("+80x+24").unwrap();
    assert_eq!((s.width, s.height), (80, 24));
    assert_eq!(parse_pane_size("120").unwrap_err(), "Invalid pane size format: 120");
    assert_eq!(parse_pane_size("1x2x3").unwrap_err(), "Invalid pane size format: 1x2x3");
    assert_eq!(parse_pane_size("ax40").unwrap_err(), "Invalid width: a");
    assert_eq!(parse_pane_size("80x").unwrap_err(), "Invalid height: ");
}

#[test]
fn finished_commands_give_output_or_error() {
    assert_eq!(command_result("tmux", true, b"out\n", b"ignored").unwrap(), "out\n");
    assert_eq!(
        command_result("ssh", false, b"", b"  no route to host\n").unwrap_err(),
        "ssh command failed: no route to host"
    );
    assert_eq!(
        command_result("tmux", true, b"\xff", b"").unwrap(),
        "\u{FFFD}"
    );
}

#[test]
fn pane_listing_passes_errors_on() {
    assert_eq!(
        panes_from_output(Err("tmux command failed: x".to_string())).unwrap_err(),
        "tmux command failed: x"
    );
    let panes = panes_from_output(Ok("s|0|w|1|%2|1\n".to_string())).unwrap();
    assert_eq!(panes.len(), 1);
    assert_eq!(panes[0].pane_id, "%2");
}
