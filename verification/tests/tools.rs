use c2s_setup::archives::{
    dir_names, extract_archive, extract_bundle, find_archives, find_gtar_archives, marker_path,
    new_names, target_name, tool_name, tool_path, top_name, unpacking_result,
};
use c2s_setup::exchange::{CommandLine, Entry, Installation, Installer, Next, Op, ProcessEnd, Reply};
use c2s_setup::install::install_one;
use c2s_setup::preinstall::make_limits;
use c2s_setup::shell::{announce, run_cmd, show_code, stderr_line};
use c2s_setup::strip::bundle_strip_components;
use c2s_setup::suites::{install_cadre, install_silvaco, install_xilinx};
use c2s_setup::unwrap::unwrap_single_child_dirs;

fn file(name: &str) -> Entry {
    Entry { name: name.to_string(), is_file: true, is_dir: false }
}

fn dir(name: &str) -> Entry {
    Entry { name: name.to_string(), is_file: false, is_dir: true }
}

fn names(v: &[&str]) -> Vec<String> {
    v.iter().map(|s| s.to_string()).collect()
}

fn line_of(c: &CommandLine) -> String {
    format!("{} {}", c.program, c.args.join(" "))
}

#[test]
fn archives_are_files_with_the_ending_in_order() {
    let entries = vec![
        file("IC618.tar.gz"),
        dir("X.tar.gz"),
        file("ASSURA41.tar.gz"),
        file("notes.txt"),
        file(".tar.gz"),
        file("genus.tar.gz"),
        file("IC618.tar.gz.gtar"),
    ];
    assert_eq!(
        find_archives(&entries, ".tar.gz"),
        names(&[".tar.gz", "ASSURA41.tar.gz", "IC618.tar.gz", "genus.tar.gz"])
    );
    assert_eq!(find_archives(&Vec::new(), ".tar.gz"), Vec::<String>::new());
}

#[test]
fn directories_are_those_that_are_visible() {
    let entries = vec![dir("B"), dir(".c2s-bundles"), file("C"), dir("A"), dir("B")];
    assert_eq!(dir_names(&entries), names(&["A", "B"]));
    assert_eq!(
        new_names(&names(&["A", "B", "C"]), &names(&["B", "D"])),
        names(&["A", "C"])
    );
}

#[test]
fn gtar_archives_have_that_extension() {
    let entries = vec![
        file("JASPER.tar.gz.gtar"),
        file(".gtar"),
        dir("D.gtar"),
        file("x.gtar"),
        file("x.gtar.gz"),
        file("..gtar"),
        file("gtar"),
    ];
    assert_eq!(find_gtar_archives(&entries), names(&["JASPER.tar.gz.gtar", "x.gtar", "..gtar"]));
    for e in &entries {
        let by_std = std::path::Path::new(&e.name).extension().map(|x| x == "gtar").unwrap_or(false);
        let one = vec![Entry { name: e.name.clone(), is_file: true, is_dir: false }];
        assert_eq!(find_gtar_archives(&one).len() == 1, by_std, "{}", e.name);
    }
}

#[test]
fn tools_are_named_after_their_archives() {
    assert_eq!(tool_name("IC618.tar.gz"), "IC618");
    assert_eq!(tool_name("IC618.tar.gz.tar.gz"), "IC618.tar.gz");
    assert_eq!(tool_name("IC618.tgz"), "IC618.tgz");
    assert_eq!(tool_path("IC618"), "/opt/cadence/IC618");
    assert_eq!(marker_path("/opt/cadence/IC618"), "/opt/cadence/IC618/.c2s-from-bundle");
    assert_eq!(target_name("JASPER.tar.gz.gtar"), "JASPER");
    assert_eq!(target_name("JASPER.tgz.gtar"), "JASPER");
    assert_eq!(target_name("JASPER.tar.gtar"), "JASPER");
    assert_eq!(target_name("JASPER.gtar"), "JASPER");
    assert_eq!(target_name("JASPER.tar.tgz.tar.gz.gtar"), "JASPER");
    assert_eq!(target_name(".tar.gtar"), "");
    assert_eq!(target_name("JASPER"), "JASPER");
}

#[test]
fn bundles_never_overwrite() {
    assert_eq!(
        line_of(&extract_archive("/m/TOOLS/IC618.tar.gz", "/opt/cadence")),
        "tar -xf /m/TOOLS/IC618.tar.gz -C /opt/cadence"
    );
    assert_eq!(
        line_of(&extract_bundle("/m/A.tar.gz", "/opt/cadence", 0)),
        "tar -xf /m/A.tar.gz -C /opt/cadence --skip-old-files"
    );
    assert_eq!(
        line_of(&extract_bundle("/m/A.tar.gz", "/opt/cadence", 1)),
        "tar -xf /m/A.tar.gz -C /opt/cadence --skip-old-files --strip-components=1"
    );
}

#[test]
fn unpacking_succeeds_with_code_zero_only() {
    assert_eq!(unpacking_result(ProcessEnd::Exited(Some(0))), Ok(()));
    assert_eq!(
        unpacking_result(ProcessEnd::Exited(Some(2))),
        Err("tar exited with Some(2)".to_string())
    );
    assert_eq!(unpacking_result(ProcessEnd::Exited(None)), Err("tar exited with None".to_string()));
    assert_eq!(
        unpacking_result(ProcessEnd::SpawnFailed("gone".to_string())),
        Err("failed to spawn tar: gone".to_string())
    );
    assert_eq!(
        unpacking_result(ProcessEnd::WaitFailed("lost".to_string())),
        Err("failed to spawn tar: lost".to_string())
    );
}

#[test]
fn top_names_are_the_first_components() {
    for (line, top) in [
        ("IC618/", "IC618"),
        ("./IC618/bin/x", "IC618"),
        ("./", ""),
        ("./././a/b", "a"),
        ("  a b/c ", "a b"),
        ("/abs/x", ""),
        ("", ""),
        ("plain", "plain"),
    ] {
        assert_eq!(top_name(line), top, "{:?}", line);
    }
}

fn judge(name: &str, lines: &[&str]) -> (usize, usize) {
    let (mut s, turn) = bundle_strip_components("/m".to_string(), name.to_string()).step(Reply::Start);
    match turn.next {
        Next::Do(Op::OpenLines(c)) => assert_eq!(line_of(&c), format!("tar -tf /m/{}", name)),
        _ => panic!("nothing was opened"),
    }
    let mut reply = Reply::Flag(true);
    let mut read: usize = 0;
    loop {
        let (state, turn) = s.step(reply);
        s = state;
        reply = match turn.next {
            Next::Do(Op::NextLine) => {
                let line = lines.get(read).map(|l| l.to_string());
                if line.is_some() {
                    read += 1;
                }
                Reply::Line(line)
            }
            Next::Do(Op::CloseLines) => Reply::Done(Ok(())),
            Next::Finish(Reply::Count(n)) => return (n, read),
            other => panic!("{:?}", other),
        };
    }
}

#[test]
fn one_level_is_stripped_under_the_archives_own_name() {
    assert_eq!(judge("Analog_RHEL_8.tar.gz", &["Analog_RHEL_8/", "./Analog_RHEL_8/IC618/"]), (1, 2));
    assert_eq!(judge("Analog_RHEL_8.tar.gz", &["IC618/", "SPECTRE211/", "X/"]), (0, 2));
    assert_eq!(judge("Analog_RHEL_8.tar.gz", &["IC618/", "IC618/bin"]), (0, 2));
    assert_eq!(judge("Analog_RHEL_8.tar.gz", &["./", "Analog_RHEL_8/a", ""]), (1, 3));
    assert_eq!(judge("A.tar.gz", &[]), (0, 0));
    assert_eq!(judge("A.tar.gz", &["A/", "B/", "A/"]), (0, 2));
}

#[test]
fn judgement_reads_a_bounded_sample() {
    let mut lines: Vec<&str> = vec!["A/x"; 2000];
    lines.push("B/y");
    assert_eq!(judge("A.tar.gz", &lines), (1, 2000));
    let mut lines: Vec<&str> = vec!["A/x"; 1999];
    lines.push("B/y");
    lines.push("A/x");
    assert_eq!(judge("A.tar.gz", &lines), (0, 2000));
}

#[test]
fn archive_that_cannot_be_listed_is_not_stripped() {
    let s = bundle_strip_components("/m".to_string(), "A.tar.gz".to_string());
    let (s, _) = s.step(Reply::Start);
    let (_, turn) = s.step(Reply::Flag(false));
    assert!(matches!(turn.next, Next::Finish(Reply::Count(0))));
}

#[test]
fn descent_stops_where_there_is_more_than_one_entry() {
    let (u, _) = unwrap_single_child_dirs("/tmp/x".to_string()).step(Reply::Start);
    let (u, turn) = u.step(Reply::Listing(Some(vec![dir("a")])));
    match turn.next {
        Next::Do(Op::ScanDir(p)) => assert_eq!(p, "/tmp/x/a"),
        _ => panic!("no scan"),
    }
    let (u, _) = u.step(Reply::Listing(Some(vec![dir("b")])));
    let (_, turn) = u.step(Reply::Listing(Some(vec![dir("bin"), file("README")])));
    match turn.next {
        Next::Finish(Reply::Place(Some(p))) => assert_eq!(p, "/tmp/x/a/b"),
        _ => panic!("no place"),
    }
}

#[test]
fn descent_stops_at_a_file_and_in_an_empty_directory() {
    for entries in [vec![file("only")], vec![]] {
        let (u, _) = unwrap_single_child_dirs("/tmp/x".to_string()).step(Reply::Start);
        let (_, turn) = u.step(Reply::Listing(Some(entries)));
        match turn.next {
            Next::Finish(Reply::Place(Some(p))) => assert_eq!(p, "/tmp/x"),
            _ => panic!("no place"),
        }
    }
    let (u, _) = unwrap_single_child_dirs("/tmp/x".to_string()).step(Reply::Start);
    let (_, turn) = u.step(Reply::Listing(None));
    assert!(matches!(turn.next, Next::Finish(Reply::Place(None))));
}

#[test]
fn missing_media_are_reported() {
    let (s, turn) = install_xilinx("/m/XILINX".to_string()).step(Reply::Start);
    assert_eq!(turn.log, names(&["[INFO] Installing Xilinx Vivado/Vitis..."]));
    let (_, turn) = s.step(Reply::Flag(false));
    assert_eq!(
        turn.log,
        names(&["[WARN] XILINX directory not found at /m/XILINX. Please place installer under ROOT/XILINX/"])
    );
    assert!(matches!(turn.next, Next::Finish(Reply::Installed(Installation::Unavailable(e))) if e == "XILINX directory missing"));

    let (s, _) = install_silvaco("/m/SILVACO".to_string(), 2).step(Reply::Start);
    let (_, turn) = s.step(Reply::Flag(false));
    assert_eq!(
        turn.log,
        names(&["[WARN] SILVACO directory not found at /m/SILVACO. Please place installers under ROOT/SILVACO/"])
    );
    assert!(matches!(turn.next, Next::Finish(Reply::Installed(Installation::Unavailable(e))) if e == "SILVACO directory missing"));

    let (s, _) = install_cadre("/m/CADRE".to_string()).step(Reply::Start);
    let (_, turn) = s.step(Reply::Flag(false));
    assert_eq!(
        turn.log,
        names(&["[WARN] CADRE directory not found at /m/CADRE. Please place the installer under ROOT/CADRE/"])
    );
    assert!(matches!(turn.next, Next::Finish(Reply::Installed(Installation::Unavailable(e))) if e == "CADRE directory missing"));
}

#[test]
fn suites_are_recorded_under_their_phase() {
    let (s, _) = install_silvaco("/m/S".to_string(), 3).step(Reply::Start);
    let (s, turn) = s.step(Reply::Flag(true));
    assert_eq!(turn.log, names(&["[INFO] Installing Silvaco Part 3 from /m/S..."]));
    assert!(matches!(turn.next, Next::Do(Op::MarkPhase(p)) if p == "SILVACO_3"));
    let (s, turn) = s.step(Reply::Done(Ok(())));
    assert!(matches!(turn.next, Next::Do(Op::RecreateEnv(t)) if t == "silvaco"));
    let (_, turn) = s.step(Reply::Done(Err("ignored".to_string())));
    assert_eq!(turn.log, names(&["[SUCCESS] Silvaco Part 3 complete."]));
    assert!(matches!(turn.next, Next::Finish(Reply::Installed(Installation::Complete))));
}

#[test]
fn missing_media_are_an_error_of_the_installer() {
    assert_eq!(Installation::Complete.outcome(), Ok(()));
    assert_eq!(Installation::Unavailable("a".to_string()).outcome(), Err("a".to_string()));
    assert_eq!(Installation::Failed("b".to_string()).outcome(), Err("b".to_string()));
}

#[test]
fn parts_come_in_order_up_to_the_first_error() {
    let (t, turn) = install_one("silvaco").step(Reply::Start);
    assert!(matches!(turn.next, Next::Do(Op::Install(Installer::Silvaco(1)))));
    let (t, turn) = t.step(Reply::Installed(Installation::Complete));
    assert!(matches!(turn.next, Next::Do(Op::Install(Installer::Silvaco(2)))));
    let (_, turn) = t.step(Reply::Installed(Installation::Failed("disk full".to_string())));
    assert!(matches!(turn.next, Next::Finish(Reply::Installed(Installation::Failed(e))) if e == "disk full"));

    let (t, _) = install_one("silvaco").step(Reply::Start);
    let (_, turn) = t.step(Reply::Installed(Installation::Unavailable("gone".to_string())));
    assert!(matches!(turn.next, Next::Finish(Reply::Installed(Installation::Unavailable(e))) if e == "gone"));

    let (mut t, mut turn) = install_one("silvaco").step(Reply::Start);
    for part in 1u8..=3 {
        assert!(matches!(turn.next, Next::Do(Op::Install(Installer::Silvaco(n))) if n == part));
        let (state, next) = t.step(Reply::Installed(Installation::Complete));
        t = state;
        turn = next;
    }
    assert!(matches!(turn.next, Next::Finish(Reply::Installed(Installation::Complete))));
}

#[test]
fn unknown_tool_fails() {
    let (_, turn) = install_one("synopsys").step(Reply::Start);
    assert!(matches!(turn.next, Next::Finish(Reply::Installed(Installation::Failed(e))) if e == "Unknown tool 'synopsys'"));
}

#[test]
fn phase_that_cannot_be_recorded_fails_the_suite() {
    let (s, _) = install_cadre("/m/C".to_string()).step(Reply::Start);
    let (s, _) = s.step(Reply::Flag(true));
    let (_, turn) = s.step(Reply::Done(Err("disk full".to_string())));
    assert!(matches!(turn.next, Next::Finish(Reply::Installed(Installation::Failed(e))) if e == "disk full"));
}

fn ended(end: ProcessEnd) -> Result<(), String> {
    let c = CommandLine { program: "dnf".to_string(), args: names(&["install", "-y"]) };
    assert_eq!(announce(&c), "$ dnf install -y");
    let (r, turn) = run_cmd(c).step(Reply::Start);
    assert_eq!(turn.log, names(&["$ dnf install -y"]));
    let (_, turn) = r.step(Reply::Ended(end));
    match turn.next {
        Next::Finish(Reply::Done(r)) => r,
        _ => panic!("no result"),
    }
}

#[test]
fn commands_succeed_with_code_zero_only() {
    assert_eq!(ended(ProcessEnd::Exited(Some(0))), Ok(()));
    assert_eq!(
        ended(ProcessEnd::Exited(Some(-1))),
        Err("Command 'dnf' failed with code Some(-1)".to_string())
    );
    assert_eq!(
        ended(ProcessEnd::Exited(None)),
        Err("Command 'dnf' failed with code None".to_string())
    );
    assert_eq!(
        ended(ProcessEnd::SpawnFailed("gone".to_string())),
        Err("Failed to spawn dnf: gone".to_string())
    );
    assert_eq!(ended(ProcessEnd::WaitFailed("lost".to_string())), Err("lost".to_string()));
}

#[test]
fn exit_codes_are_shown_as_options() {
    for code in [None, Some(0), Some(127), Some(-9), Some(i32::MIN)] {
        assert_eq!(show_code(code), format!("{:?}", code));
    }
    assert_eq!(stderr_line("oops"), "[STDERR] oops");
    let c = CommandLine { program: "true".to_string(), args: Vec::new() };
    assert_eq!(announce(&c), "$ true ");
}

#[test]
fn limits_name_the_student_four_times() {
    assert_eq!(
        make_limits("stu"),
        "\n# VLSI Lab limits\nstu hard nofile 65536\nstu soft nofile 65536\nstu hard nproc 65536\nstu soft nproc 65536\n"
    );
}
