use c2s_setup::cli::{add_user_from_spec, plan_run, Action, Cli};
use c2s_setup::exchange::{PhaseRecord, StatusReport};
use c2s_setup::install::runs_of;
use c2s_setup::run::print_status;
use c2s_setup::tool_names::{all_tools, resolve_tool_names, tools_meant};

fn no_flags() -> Cli {
    Cli {
        machine: None,
        status: false,
        preinstall: false,
        install: Vec::new(),
        recreate_env: Vec::new(),
        add_user: Vec::new(),
        dependency: None,
    }
}

fn strings(v: &[&str]) -> Vec<String> {
    v.iter().map(|s| s.to_string()).collect()
}

fn shown(plan: &Result<Vec<Action>, String>) -> Vec<String> {
    match plan {
        Ok(actions) => actions.iter().map(|a| format!("{:?}", a)).collect(),
        Err(e) => vec![format!("error: {}", e)],
    }
}

#[test]
fn bare_invocation_is_not_headless() {
    assert!(!no_flags().wants_cli_mode());
    assert!(shown(&plan_run(&no_flags())).is_empty());
}

#[test]
fn any_flag_is_headless_and_does_something() {
    for cli in [
        Cli { machine: Some(5), ..no_flags() },
        Cli { status: true, ..no_flags() },
        Cli { preinstall: true, ..no_flags() },
        Cli { install: strings(&["cadence"]), ..no_flags() },
        Cli { recreate_env: strings(&["cadence"]), ..no_flags() },
        Cli { add_user: strings(&["u"]), ..no_flags() },
        Cli { dependency: Some("libpng12.so.0".to_string()), ..no_flags() },
    ] {
        assert!(cli.wants_cli_mode());
        assert!(!plan_run(&cli).unwrap().is_empty());
    }
}

#[test]
fn all_stands_for_every_tool() {
    assert_eq!(all_tools(), strings(&["xilinx", "cadence", "silvaco", "cadre"]));
    assert_eq!(resolve_tool_names(&strings(&["all"])), Ok(all_tools()));
    assert_eq!(
        resolve_tool_names(&strings(&["cadre", "ALL"])),
        Ok(strings(&["cadre", "xilinx", "cadence", "silvaco", "cadre"]))
    );
}

#[test]
fn names_in_lower_case_stand_for_tools() {
    assert_eq!(tools_meant("all"), Some(all_tools()));
    assert_eq!(tools_meant("silvaco"), Some(strings(&["silvaco"])));
    assert_eq!(tools_meant("Silvaco"), None);
    assert_eq!(tools_meant(""), None);
}

#[test]
fn tool_names_are_trimmed_and_lowered() {
    assert_eq!(
        resolve_tool_names(&strings(&[" Cadence ", "XILINX", "silvaco"])),
        Ok(strings(&["cadence", "xilinx", "silvaco"]))
    );
    assert_eq!(resolve_tool_names(&Vec::new()), Ok(Vec::new()));
}

#[test]
fn non_ascii_case_is_lowered_too() {
    // U+212A KELVIN SIGN is no ASCII letter, but its lower case is "k".
    assert!(resolve_tool_names(&strings(&["\u{212a}adence"])).is_err());
    // U+2002 EN SPACE is white space.
    assert_eq!(resolve_tool_names(&strings(&["\u{2002}Cadre"])), Ok(strings(&["cadre"])));
    // U+0130 is lowered to "i" and a combining dot, which no tool's name holds.
    assert!(resolve_tool_names(&strings(&["X\u{130}LINX"])).is_err());
}

#[test]
fn first_unknown_tool_is_reported_as_written() {
    assert_eq!(
        resolve_tool_names(&strings(&["cadence", " Synopsys", "nope"])),
        Err(
            "Unknown tool ' Synopsys' - expected one of: xilinx, cadence, silvaco, cadre, or all"
                .to_string()
        )
    );
    assert_eq!(
        resolve_tool_names(&strings(&[""])),
        Err(
            "Unknown tool '' - expected one of: xilinx, cadence, silvaco, cadre, or all".to_string()
        )
    );
}

#[test]
fn resolving_twice_changes_nothing() {
    let once = resolve_tool_names(&strings(&["ALL", "Cadre"])).unwrap();
    assert_eq!(resolve_tool_names(&once), Ok(once.clone()));
}

#[test]
fn silvaco_is_installed_in_three_parts() {
    assert_eq!(format!("{:?}", runs_of("xilinx")), "Ok([Xilinx])");
    assert_eq!(format!("{:?}", runs_of("cadence")), "Ok([Cadence])");
    assert_eq!(
        format!("{:?}", runs_of("silvaco")),
        "Ok([Silvaco(1), Silvaco(2), Silvaco(3)])"
    );
    assert_eq!(format!("{:?}", runs_of("cadre")), "Ok([Cadre])");
    assert_eq!(format!("{:?}", runs_of("synopsys")), "Err(\"Unknown tool 'synopsys'\")");
}

#[test]
fn users_are_described_by_one_or_three_fields() {
    let u = add_user_from_spec("srmist30920,Student,RA2111003010001").unwrap();
    assert_eq!((u.username.as_str(), u.role.as_str(), u.identifier.as_str()),
        ("srmist30920", "Student", "RA2111003010001"));
    let u = add_user_from_spec(" alice ").unwrap();
    assert_eq!((u.username.as_str(), u.role.as_str(), u.identifier.as_str()),
        ("alice", "Student", "REG-DEFAULT"));
    let u = add_user_from_spec("bob , Faculty, ").unwrap();
    assert_eq!((u.username.as_str(), u.role.as_str(), u.identifier.as_str()),
        ("bob", "Faculty", ""));
    let u = add_user_from_spec("").unwrap();
    assert_eq!((u.username.as_str(), u.role.as_str()), ("", "Student"));
}

#[test]
fn other_descriptions_are_invalid() {
    for s in ["a,b", "a,b,c,d", ","] {
        match add_user_from_spec(s) {
            Err(e) => assert_eq!(
                e,
                format!("Invalid --add-user format '{}'. Use USERNAME[,ROLE,REGISTER_NO]", s)
            ),
            Ok(_) => panic!("{} was accepted", s),
        }
    }
}

#[test]
fn plan_keeps_the_order_of_actions() {
    let cli = Cli {
        machine: Some(5),
        preinstall: true,
        install: strings(&["silvaco", "Cadence"]),
        recreate_env: strings(&["cadre"]),
        add_user: strings(&["u1", "u2,Staff,9"]),
        dependency: Some("libpng12.so.0".to_string()),
        ..no_flags()
    };
    assert_eq!(
        shown(&plan_run(&cli)),
        strings(&[
            "SetMachine(5)",
            "Preinstall",
            "Install(\"silvaco\")",
            "Install(\"cadence\")",
            "RecreateEnv(\"cadre\")",
            "AddUser(\"u1\")",
            "AddUser(\"u2,Staff,9\")",
            "Dependency(\"libpng12.so.0\")",
        ])
    );
}

#[test]
fn status_is_shown_and_nothing_else_is_done() {
    let cli = Cli { status: true, preinstall: true, install: strings(&["all"]), ..no_flags() };
    assert_eq!(shown(&plan_run(&cli)), strings(&["ShowStatus"]));
    let cli = Cli { machine: Some(20), ..cli };
    assert_eq!(shown(&plan_run(&cli)), strings(&["SetMachine(20)", "ShowStatus"]));
}

#[test]
fn machine_numbers_go_from_one_to_twenty() {
    for n in [1u8, 2, 19, 20] {
        assert_eq!(
            shown(&plan_run(&Cli { machine: Some(n), ..no_flags() })),
            vec![format!("SetMachine({})", n)]
        );
    }
    for n in [0u8, 21, 255] {
        assert_eq!(
            shown(&plan_run(&Cli { machine: Some(n), preinstall: true, ..no_flags() })),
            vec![format!("error: --machine must be between 1 and 20, got {}", n)]
        );
    }
}

#[test]
fn typo_anywhere_leaves_no_plan() {
    let cli = Cli {
        preinstall: true,
        install: strings(&["all"]),
        recreate_env: strings(&["cadense"]),
        ..no_flags()
    };
    assert_eq!(
        shown(&plan_run(&cli)),
        strings(&[
            "error: Unknown tool 'cadense' - expected one of: xilinx, cadence, silvaco, cadre, or all"
        ])
    );
}

fn never_done() -> PhaseRecord {
    PhaseRecord { done: false, time: None }
}

#[test]
fn status_lists_every_phase_in_columns() {
    let report = StatusReport {
        machine_number: 5,
        hostname_fqdn: "c2s05.lab.local".to_string(),
        sysadmin_user: "root2".to_string(),
        student_user: "student".to_string(),
        pre_install: PhaseRecord { done: true, time: Some("2025-01-02 03:04:05".to_string()) },
        xilinx: never_done(),
        cadence: PhaseRecord { done: true, time: None },
        silvaco_1: never_done(),
        silvaco_2: never_done(),
        silvaco_3: never_done(),
        cadre: never_done(),
    };
    assert_eq!(
        print_status(&report),
        strings(&[
            "Machine: #5 (c2s05.lab.local)",
            "Sysadmin user: root2",
            "Student user:  student",
            "",
            "  [x] PRE_INSTALL  2025-01-02 03:04:05",
            "  [ ] XILINX       -",
            "  [x] CADENCE      -",
            "  [ ] SILVACO_1    -",
            "  [ ] SILVACO_2    -",
            "  [ ] SILVACO_3    -",
            "  [ ] CADRE        -",
        ])
    );
    for phase in ["PRE_INSTALL", "XILINX", "CADENCE", "SILVACO_1", "SILVACO_2", "SILVACO_3", "CADRE"] {
        let start = format!("  [ ] {:<12} ", phase);
        assert!(print_status(&report)
            .iter()
            .any(|l| l.replace("[x]", "[ ]").starts_with(&start)));
    }
}
