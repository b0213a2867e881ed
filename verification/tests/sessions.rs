use c2s_setup::cadence::install_cadence;
use c2s_setup::cli::Cli;
use c2s_setup::exchange::{
    Captured, CommandLine, Entry, Fed, Op, PhaseRecord, ProcessEnd, Reply, ReplyKind, StatusReport,
};
use c2s_setup::preinstall::run_preinstall;
use c2s_setup::run::run;
use c2s_setup::session::{start, Procedure, Site, Todo};
use c2s_setup::shell::announce;
use c2s_setup::user_list::list_lab_users;
use c2s_setup::user_setup::{create_or_configure_student_user, grant_env};
use c2s_setup::users::{check_user_exists, infer_role, is_bashrc_configured};
use c2s_setup::vnc_grant::grant_vnc;
use std::collections::{BTreeMap, BTreeSet};

/// A machine that exists only in memory.
struct World {
    files: BTreeMap<String, String>,
    dirs: BTreeSet<String>,
    users: BTreeSet<String>,
    groups: BTreeMap<String, String>,
    /// The members of each archive.
    members: BTreeMap<String, Vec<String>>,
    /// Programs that exit with code 1.
    broken: BTreeSet<String>,
    listing: Vec<String>,
    read: usize,
    phases: Vec<String>,
    envs: Vec<String>,
    commands: Vec<String>,
    machine: u8,
    /// Whether the directory for temporary files is on a file system of its own.
    apart: bool,
    /// Archives that break off behind their first member.
    torn: BTreeSet<String>,
    /// The requests so far, by name.
    asked: Vec<String>,
}

fn world() -> World {
    World {
        files: BTreeMap::new(),
        dirs: BTreeSet::new(),
        users: BTreeSet::new(),
        groups: BTreeMap::new(),
        members: BTreeMap::new(),
        broken: BTreeSet::new(),
        listing: Vec::new(),
        read: 0,
        phases: Vec::new(),
        envs: Vec::new(),
        commands: Vec::new(),
        machine: 1,
        apart: false,
        torn: BTreeSet::new(),
        asked: Vec::new(),
    }
}

fn phase_of(w: &World, name: &str) -> PhaseRecord {
    PhaseRecord { done: w.phases.iter().any(|p| p == name), time: None }
}

impl World {
    fn site(&self) -> Site {
        Site {
            student_user: "student".to_string(),
            hostname_fqdn: format!("pc{}.lab", self.machine),
            xilinx_dir: "/m/XILINX".to_string(),
            cadence_dir: "/m/CADENCE".to_string(),
            silvaco_dir: "/m/SILVACO".to_string(),
            cadre_dir: "/m/CADRE".to_string(),
            temp_dir: "/tmp".to_string(),
        }
    }

    fn holds(&self, p: &str) -> bool {
        self.files.contains_key(p) || self.dirs.contains(p)
    }

    fn add_dir(&mut self, p: &str) {
        let mut so_far = String::new();
        for part in p.split('/').filter(|x| !x.is_empty()) {
            so_far = format!("{}/{}", so_far, part);
            self.dirs.insert(so_far.clone());
        }
    }

    fn add_file(&mut self, p: &str, content: &str) {
        let parent = p.rsplit_once('/').map(|x| x.0.to_string()).unwrap_or_default();
        self.add_dir(&parent);
        self.files.insert(p.to_string(), content.to_string());
    }

    fn archive(&mut self, p: &str, members: &[&str]) {
        self.add_file(p, "archive");
        self.members.insert(p.to_string(), members.iter().map(|m| m.to_string()).collect());
    }

    fn children(&self, p: &str) -> Option<Vec<Entry>> {
        if !self.dirs.contains(p) {
            return None;
        }
        let prefix = format!("{}/", p);
        let mut out = Vec::new();
        for (d, is_dir) in self
            .dirs
            .iter()
            .map(|d| (d, true))
            .chain(self.files.keys().map(|f| (f, false)))
        {
            if let Some(rest) = d.strip_prefix(&prefix) {
                if !rest.is_empty() && !rest.contains('/') {
                    out.push(Entry { name: rest.to_string(), is_file: !is_dir, is_dir });
                }
            }
        }
        out.reverse();
        Some(out)
    }

    fn remove_dir(&mut self, p: &str) -> Result<(), String> {
        if !self.dirs.contains(p) {
            return Err("no such directory".to_string());
        }
        let prefix = format!("{}/", p);
        self.dirs.retain(|d| d != p && !d.starts_with(&prefix));
        self.files.retain(|f, _| !f.starts_with(&prefix));
        Ok(())
    }

    fn rename(&mut self, from: &str, to: &str) -> Result<(), String> {
        if self.apart && from.starts_with("/tmp/") != to.starts_with("/tmp/") {
            return Err("Invalid cross-device link".to_string());
        }
        self.relocate(from, to)
    }

    fn relocate(&mut self, from: &str, to: &str) -> Result<(), String> {
        if let Some(c) = self.files.remove(from) {
            self.files.insert(to.to_string(), c);
            return Ok(());
        }
        if !self.dirs.contains(from) {
            return Err("no such path".to_string());
        }
        let moved = |p: &String| p.replacen(from, to, 1);
        let prefix = format!("{}/", from);
        let dirs: BTreeSet<String> = self
            .dirs
            .iter()
            .map(|d| if d == from || d.starts_with(&prefix) { moved(d) } else { d.clone() })
            .collect();
        let files: BTreeMap<String, String> = self
            .files
            .iter()
            .map(|(f, c)| (if f.starts_with(&prefix) { moved(f) } else { f.clone() }, c.clone()))
            .collect();
        self.dirs = dirs;
        self.files = files;
        Ok(())
    }

    fn unpack(&mut self, archive: &str, into: &str, keep: bool, strip: bool) {
        for m in self.members.get(archive).cloned().unwrap_or_default() {
            let mut name = m.trim_start_matches("./").to_string();
            if strip {
                name = name.split_once('/').map(|x| x.1.to_string()).unwrap_or_default();
            }
            if name.is_empty() {
                continue;
            }
            let path = format!("{}/{}", into, name);
            if let Some(d) = path.strip_suffix('/') {
                self.add_dir(d);
            } else if !(keep && self.files.contains_key(&path)) {
                self.add_file(&path, archive);
            }
        }
    }

    fn code(&mut self, c: &CommandLine) -> Option<i32> {
        self.commands.push(announce(c));
        if self.broken.contains(&c.program) {
            return Some(1);
        }
        match c.program.as_str() {
            "id" => Some(if self.users.contains(c.args.last().unwrap()) { 0 } else { 1 }),
            "useradd" => {
                let name = c.args.last().unwrap().clone();
                self.add_file(&format!("/home/{}/.bashrc", name), "# rc\n");
                self.users.insert(name);
                Some(0)
            }
            "tar" => {
                if !self.members.contains_key(&c.args[1]) {
                    return Some(2);
                }
                let keep = c.args.iter().any(|a| a == "--skip-old-files");
                let strip = c.args.iter().any(|a| a == "--strip-components=1");
                if self.torn.contains(&c.args[1]) {
                    let whole = self.members[&c.args[1]].clone();
                    self.members.insert(c.args[1].clone(), whole[..1].to_vec());
                    self.unpack(&c.args[1], &c.args[3], keep, strip);
                    self.members.insert(c.args[1].clone(), whole);
                    return Some(2);
                }
                self.unpack(&c.args[1], &c.args[3], keep, strip);
                Some(0)
            }
            "cp" => Some(if self.relocate(&c.args[2], &c.args[3]).is_ok() { 0 } else { 1 }),
            _ => Some(0),
        }
    }

    fn perform(&mut self, op: Op) -> Reply {
        let shown = format!("{:?}", op);
        self.asked.push(shown.split('(').next().unwrap_or_default().to_string());
        match op {
            Op::Exists(p) => Reply::Flag(self.holds(p.trim_end_matches('/'))),
            Op::ListDir(p) | Op::ScanDir(p) => Reply::Listing(self.children(&p)),
            Op::CreateDir(p) => {
                self.add_dir(&p);
                Reply::Done(Ok(()))
            }
            Op::RemoveDir(p) => Reply::Done(self.remove_dir(&p)),
            Op::RemoveFile(p) => {
                Reply::Done(self.files.remove(&p).map(|_| ()).ok_or("no such file".to_string()))
            }
            Op::Rename(a, b) => Reply::Done(self.rename(&a, &b)),
            Op::ReadText(p) => {
                Reply::Text(self.files.get(&p).cloned().ok_or("no such file".to_string()))
            }
            Op::WriteText(p, t) => {
                self.files.insert(p, t);
                Reply::Done(Ok(()))
            }
            Op::WriteBytes(p, b) => {
                self.files.insert(p, format!("{:?}", b));
                Reply::Done(Ok(()))
            }
            Op::AppendText(p, t) => match self.files.get_mut(&p) {
                Some(c) => {
                    c.push_str(&t);
                    Reply::Done(Ok(()))
                }
                None => Reply::Done(Err("no such file".to_string())),
            },
            Op::Status(c) | Op::Quiet(c) | Op::Stream(c) => {
                Reply::Ended(ProcessEnd::Exited(self.code(&c)))
            }
            Op::Capture(c) => {
                let code = self.code(&c);
                let stdout = if c.program == "sh" {
                    let all: Vec<&str> = self.users.iter().rev().map(|u| u.as_str()).collect();
                    all.join("\n")
                } else if c.program == "id" {
                    self.groups.get(c.args.last().unwrap()).cloned().unwrap_or_default()
                } else {
                    String::new()
                };
                Reply::Captured(Captured::Exited { code, stdout, stderr: "denied".to_string() })
            }
            Op::Feed(c, text) => {
                let code = self.code(&c);
                let stdout = text.bytes().rev().collect();
                Reply::Fed(Fed::Exited { code, stdout, stderr: String::new() })
            }
            Op::OpenLines(c) => {
                self.listing = self.members.get(&c.args[1]).cloned().unwrap_or_default();
                self.read = 0;
                Reply::Flag(true)
            }
            Op::NextLine => {
                self.read += 1;
                Reply::Line(self.listing.get(self.read - 1).cloned())
            }
            Op::CloseLines => Reply::Done(Ok(())),
            Op::RandomBytes(n) => Reply::Bytes(Some((0..n as u8).collect())),
            Op::ClockNanos => Reply::Nanos(1),
            Op::MarkPhase(p) => {
                self.phases.push(p);
                Reply::Done(Ok(()))
            }
            Op::RecreateEnv(t) => {
                self.envs.push(t);
                Reply::Done(Ok(()))
            }
            Op::SetMachine(n) => {
                self.machine = n;
                Reply::Text(Ok(format!("pc{}.lab", n)))
            }
            Op::ReadStatus => Reply::Status(StatusReport {
                machine_number: self.machine,
                hostname_fqdn: format!("pc{}.lab", self.machine),
                sysadmin_user: "sysadmin".to_string(),
                student_user: "student".to_string(),
                pre_install: phase_of(self, "PRE_INSTALL"),
                xilinx: phase_of(self, "XILINX"),
                cadence: phase_of(self, "CADENCE"),
                silvaco_1: phase_of(self, "SILVACO_1"),
                silvaco_2: phase_of(self, "SILVACO_2"),
                silvaco_3: phase_of(self, "SILVACO_3"),
                cadre: phase_of(self, "CADRE"),
            }),
            Op::ResolveDependency(p) => {
                self.commands.push(format!("resolve {}", p));
                Reply::Done(Ok(()))
            }
            other => panic!("{:?} is no request to the machine", other),
        }
    }

    fn drive(&mut self, procedure: Procedure) -> (Reply, Vec<String>) {
        let mut session = start(procedure);
        let mut reply = Reply::Start;
        let mut log = Vec::new();
        loop {
            assert!(session.takes(&reply), "{:?} does not take {:?}", session, reply);
            let (next, lines, todo) = session.step(reply, &self.site());
            session = next;
            log.extend(lines);
            reply = match todo {
                Todo::Perform(op) => self.perform(op),
                Todo::Resume(r) => r,
                Todo::Done(r) => {
                    assert!(session.waits() == ReplyKind::Never);
                    return (r, log);
                }
            };
        }
    }

    fn carry_out(&mut self, procedure: Procedure) -> (Result<(), String>, Vec<String>) {
        match self.drive(procedure) {
            (Reply::Done(r), log) => (r, log),
            (Reply::Installed(i), log) => (i.outcome(), log),
            (other, _) => panic!("{:?}", other),
        }
    }

    fn cadence(&mut self) -> Vec<String> {
        let (r, log) = self.carry_out(Procedure::Cadence(install_cadence("/m/CADENCE".to_string())));
        assert_eq!(r, Ok(()));
        log
    }
}

fn flags() -> Cli {
    Cli {
        machine: None,
        status: false,
        preinstall: false,
        install: Vec::new(),
        recreate_env: Vec::new(),
        add_user: Vec::new(),
        dependency: None,
    }
}

fn texts(v: &[&str]) -> Vec<String> {
    v.iter().map(|s| s.to_string()).collect()
}

fn has(log: &[String], line: &str) -> bool {
    log.iter().any(|l| l == line)
}

#[test]
fn machine_preinstall_and_cadence_in_one_run() {
    let mut w = world();
    w.archive("/m/CADENCE/TOOLS/IC618.tar.gz", &["IC618/", "IC618/bin/virtuoso"]);
    w.add_file("/etc/security/limits.conf", "# limits\n");
    w.add_file("/etc/gdm/custom.conf", "#WaylandEnable=false\n");
    let cli = Cli {
        machine: Some(5),
        preinstall: true,
        install: texts(&["cadence"]),
        ..flags()
    };
    let (r, log) = w.carry_out(Procedure::Run(run(&cli)));
    assert_eq!(r, Ok(()));
    assert_eq!(log[0], "[CONFIG] Machine set to #5 (pc5.lab)");
    assert!(has(&log, "[STEP 1/6] Setting system hostname to pc5.lab..."));
    assert!(has(&log, "$ hostnamectl set-hostname pc5.lab"));
    assert!(has(&log, "[SUCCESS] Created student user 'student'."));
    assert!(has(&log, "[SUCCESS] IC618 installed."));
    assert_eq!(log.last().unwrap(), "[SUCCESS] Cadence installation complete.");
    assert_eq!(w.phases, texts(&["PRE_INSTALL", "CADENCE"]));
    assert_eq!(w.envs, texts(&["cadence"]));
    assert!(w.holds("/opt/cadence/IC618/bin/virtuoso"));
    assert_eq!(
        w.files["/etc/security/limits.conf"],
        "# limits\n\n# VLSI Lab limits\nstudent hard nofile 65536\nstudent soft nofile 65536\nstudent hard nproc 65536\nstudent soft nproc 65536\n"
    );
    assert!(w.commands.contains(
        &"$ sed -i s/^#WaylandEnable=false/WaylandEnable=false/ /etc/gdm/custom.conf".to_string()
    ));
    let dnf = w.commands.iter().find(|c| c.starts_with("$ dnf")).unwrap();
    assert!(dnf.starts_with("$ dnf install -y epel-release tcsh csh ksh gcc gcc-c++ make"));
    assert!(dnf.ends_with("libX11.i686 libXScrnSaver apr-util gdb tigervnc-server"));
    assert_eq!(dnf.split(' ').count(), 42);
}

#[test]
fn missing_folder_leaves_the_other_tools() {
    let mut w = world();
    w.add_dir("/m/XILINX");
    w.add_dir("/m/CADRE");
    let cli = Cli { install: texts(&["xilinx", "silvaco", "cadre"]), ..flags() };
    let (r, log) = w.carry_out(Procedure::Run(run(&cli)));
    assert_eq!(r, Err("SILVACO directory missing".to_string()));
    assert_eq!(w.phases, texts(&["XILINX", "CADRE"]));
    assert!(has(&log, "[SUCCESS] Xilinx installation complete."));
    assert!(has(
        &log,
        "[WARN] SILVACO directory not found at /m/SILVACO. Please place installers under ROOT/SILVACO/"
    ));
    assert_eq!(log.iter().filter(|l| l.starts_with("[WARN] SILVACO")).count(), 1);
    assert_eq!(log.last().unwrap(), "[SUCCESS] CADRE VisualTCAD installation complete.");
}

#[test]
fn all_tools_but_the_missing_one_are_installed() {
    let mut w = world();
    w.archive("/m/CADENCE/TOOLS/IC618.tar.gz", &["IC618/"]);
    w.add_dir("/m/SILVACO");
    w.add_dir("/m/CADRE");
    let cli = Cli {
        install: texts(&["all"]),
        add_user: texts(&["alice"]),
        dependency: Some("libpng12.so.0".to_string()),
        ..flags()
    };
    let (r, _) = w.carry_out(Procedure::Run(run(&cli)));
    assert_eq!(r, Err("XILINX directory missing".to_string()));
    assert_eq!(w.phases, texts(&["CADENCE", "SILVACO_1", "SILVACO_2", "SILVACO_3", "CADRE"]));
    assert!(w.users.contains("alice"));
    assert_eq!(w.commands.last().unwrap(), "resolve libpng12.so.0");
}

#[test]
fn first_missing_tool_is_reported() {
    let mut w = world();
    let cli = Cli { install: texts(&["cadre", "xilinx"]), ..flags() };
    let (r, log) = w.carry_out(Procedure::Run(run(&cli)));
    assert_eq!(r, Err("CADRE directory missing".to_string()));
    assert_eq!(log.iter().filter(|l| l.starts_with("[WARN]")).count(), 2);
}

#[test]
fn failure_of_another_sort_ends_the_run() {
    let mut w = world();
    w.broken.insert("useradd".to_string());
    let cli = Cli {
        install: texts(&["xilinx"]),
        add_user: texts(&["alice"]),
        dependency: Some("libpng12.so.0".to_string()),
        ..flags()
    };
    let (r, _) = w.carry_out(Procedure::Run(run(&cli)));
    assert_eq!(r, Err("useradd failed: denied".to_string()));
    assert!(!w.commands.iter().any(|c| c.starts_with("resolve")));
}

#[test]
fn silvaco_records_three_phases() {
    let mut w = world();
    w.add_dir("/m/SILVACO");
    let cli = Cli { install: texts(&["silvaco"]), ..flags() };
    assert_eq!(w.carry_out(Procedure::Run(run(&cli))).0, Ok(()));
    assert_eq!(w.phases, texts(&["SILVACO_1", "SILVACO_2", "SILVACO_3"]));
    assert_eq!(w.envs, texts(&["silvaco", "silvaco", "silvaco"]));
}

#[test]
fn status_run_prints_and_changes_nothing() {
    let mut w = world();
    w.phases.push("XILINX".to_string());
    let cli = Cli { status: true, install: texts(&["all"]), ..flags() };
    let (r, log) = w.carry_out(Procedure::Run(run(&cli)));
    assert_eq!(r, Ok(()));
    assert_eq!(log.len(), 11);
    assert_eq!(log[5], "  [x] XILINX       -");
    assert_eq!(log[6], "  [ ] CADENCE      -");
    assert_eq!(w.phases, texts(&["XILINX"]));
    assert!(w.commands.is_empty());
}

#[test]
fn typo_does_nothing_at_all() {
    let mut w = world();
    let cli = Cli { preinstall: true, install: texts(&["cadense"]), ..flags() };
    let (r, log) = w.carry_out(Procedure::Run(run(&cli)));
    assert_eq!(
        r,
        Err("Unknown tool 'cadense' - expected one of: xilinx, cadence, silvaco, cadre, or all".to_string())
    );
    assert!(log.is_empty());
    assert!(w.commands.is_empty());
}

#[test]
fn environments_users_and_dependency_in_order() {
    let mut w = world();
    let cli = Cli {
        recreate_env: texts(&["all"]),
        add_user: texts(&["srmist30920,Student,RA2111003010001"]),
        dependency: Some("libpng12.so.0".to_string()),
        ..flags()
    };
    let (r, log) = w.carry_out(Procedure::Run(run(&cli)));
    assert_eq!(r, Ok(()));
    assert_eq!(w.envs, texts(&["xilinx", "cadence", "silvaco", "cadre"]));
    assert_eq!(
        log,
        texts(&[
            "[USER MGR] Provisioning user account 'srmist30920' (Student) - ID: RA2111003010001",
            "[USER MGR] User 'srmist30920' does not exist. Creating system account...",
            "[USER MGR] Successfully created Linux user 'srmist30920'.",
            "[USER MGR] Injecting EDA launcher into /home/srmist30920/.bashrc...",
            "[SUCCESS] Configured .bashrc for 'srmist30920'.",
        ])
    );
    assert!(w.commands.contains(
        &"$ useradd -m -s /bin/bash -c VLSI Lab Student [RA2111003010001] srmist30920".to_string()
    ));
    assert_eq!(w.commands.last().unwrap(), "resolve libpng12.so.0");
}

#[test]
fn bad_user_stops_the_run_in_its_turn() {
    let mut w = world();
    let cli = Cli { add_user: texts(&["alice", "a,b", "carol"]), ..flags() };
    let (r, _) = w.carry_out(Procedure::Run(run(&cli)));
    assert_eq!(
        r,
        Err("Invalid --add-user format 'a,b'. Use USERNAME[,ROLE,REGISTER_NO]".to_string())
    );
    assert!(w.users.contains("alice"));
    assert!(!w.users.contains("carol"));
}

#[test]
fn preinstall_goes_on_past_packages_and_group() {
    let mut w = world();
    w.users.insert("student".to_string());
    w.broken.insert("dnf".to_string());
    w.broken.insert("groupadd".to_string());
    let p = run_preinstall("student".to_string(), "pc1.lab".to_string());
    let (r, log) = w.carry_out(Procedure::Preinstall(p));
    assert_eq!(r, Ok(()));
    assert!(has(&log, "[INFO] Student user 'student' already exists."));
    assert_eq!(w.phases, texts(&["PRE_INSTALL"]));
    assert!(!w.commands.iter().any(|c| c.starts_with("$ useradd") || c.starts_with("$ sed")));
}

#[test]
fn preinstall_stops_where_the_host_or_user_fails() {
    let mut w = world();
    w.broken.insert("hostnamectl".to_string());
    let p = run_preinstall("student".to_string(), "pc1.lab".to_string());
    assert_eq!(
        w.carry_out(Procedure::Preinstall(p)).0,
        Err("Command 'hostnamectl' failed with code Some(1)".to_string())
    );
    assert!(w.phases.is_empty());
    let mut w = world();
    w.broken.insert("useradd".to_string());
    let p = run_preinstall("student".to_string(), "pc1.lab".to_string());
    assert_eq!(
        w.carry_out(Procedure::Preinstall(p)).0,
        Err("Command 'useradd' failed with code Some(1)".to_string())
    );
    assert!(w.phases.is_empty());
}

#[test]
fn cadence_without_media_fails() {
    let mut w = world();
    let (r, _) = w.carry_out(Procedure::Cadence(install_cadence("/m/CADENCE".to_string())));
    assert_eq!(r, Err("CADENCE directory missing".to_string()));
    w.add_dir("/m/CADENCE");
    let (r, log) = w.carry_out(Procedure::Cadence(install_cadence("/m/CADENCE".to_string())));
    assert_eq!(r, Err("CADENCE/TOOLS directory missing".to_string()));
    assert_eq!(
        log.last().unwrap(),
        "[WARN] Neither /m/CADENCE/TOOLS nor a bulk bundle (CADENCE/*.tar.gz) found. Please place each tool's .tar.gz archive under CADENCE/TOOLS/"
    );
}

#[test]
fn second_run_skips_installed_tools() {
    let mut w = world();
    w.archive("/m/CADENCE/TOOLS/GENUS211.tar.gz", &["GENUS211/", "GENUS211/bin"]);
    w.archive("/m/CADENCE/TOOLS/ASSURA41.tar.gz", &["ASSURA41/"]);
    let log = w.cadence();
    assert!(has(&log, "[INFO] Cadence extraction pass complete: 2 installed, 0 already present, 0 failed."));
    let at = |l: &str| log.iter().position(|x| x == l).unwrap();
    assert!(at("[SUCCESS] ASSURA41 installed.") < at("[SUCCESS] GENUS211 installed."));
    w.archive("/m/CADENCE/TOOLS/IC618.tar.gz", &["IC618/"]);
    let log = w.cadence();
    assert!(has(&log, "[INFO] ASSURA41 already installed at /opt/cadence/ASSURA41 - skipping."));
    assert!(has(&log, "[INFO] Extracting IC618.tar.gz -> /opt/cadence/IC618..."));
    assert!(has(&log, "[INFO] Cadence extraction pass complete: 1 installed, 2 already present, 0 failed."));
}

#[test]
fn second_installation_changes_nothing() {
    let mut w = world();
    w.archive("/m/CADENCE/Digital.tar.gz", &["IC618/oa", "SHARED/x"]);
    w.archive("/m/CADENCE/TOOLS/IC618.tar.gz", &["IC618/", "IC618/bin"]);
    w.archive("/m/CADENCE/TOOLS/GENUS211.tar.gz", &["GENUS211/"]);
    w.archive("/m/CADENCE/TOOLS/JASPER.tar.gz.gtar", &["outer/bin", "outer/lib"]);
    w.cadence();
    let (files, dirs) = (w.files.clone(), w.dirs.clone());
    w.asked.clear();
    let log = w.cadence();
    assert_eq!((w.files.clone(), w.dirs.clone()), (files, dirs));
    assert!(has(&log, "[INFO] Cadence extraction pass complete: 0 installed, 2 already present, 0 failed."));
    for op in ["Status", "WriteText", "RemoveDir", "RemoveFile", "Rename"] {
        assert!(!w.asked.iter().any(|a| a == op), "{} was asked for", op);
    }
    assert!(w.asked.iter().any(|a| a == "Exists"));
}

#[test]
fn broken_archive_does_not_stop_the_others() {
    let mut w = world();
    w.add_file("/m/CADENCE/TOOLS/BAD.tar.gz", "not an archive");
    w.archive("/m/CADENCE/TOOLS/IC618.tar.gz", &["IC618/"]);
    let log = w.cadence();
    assert!(has(&log, "[ERROR] Failed to extract BAD.tar.gz: tar exited with Some(2)"));
    assert!(has(&log, "[INFO] Cadence extraction pass complete: 1 installed, 0 already present, 1 failed."));
    assert_eq!(w.phases, texts(&["CADENCE"]));
}

#[test]
fn tools_directory_without_archives_is_warned_of() {
    let mut w = world();
    w.add_dir("/m/CADENCE/TOOLS");
    let log = w.cadence();
    assert!(has(&log, "[WARN] No .tar.gz archives found under /m/CADENCE/TOOLS."));
    assert!(has(&log, "[INFO] Cadence extraction pass complete: 0 installed, 0 already present, 0 failed."));
}

#[test]
fn bundles_alone_are_enough() {
    let mut w = world();
    w.archive("/m/CADENCE/Analog_RHEL_8.tar.gz", &["Analog_RHEL_8/", "Analog_RHEL_8/IC618/", "Analog_RHEL_8/IC618/oa"]);
    let log = w.cadence();
    assert!(has(&log, "[WARN] /m/CADENCE/TOOLS not found - installed the bulk bundles only."));
    assert!(has(&log, "[SUCCESS] Analog_RHEL_8.tar.gz extracted - provided 1 tool folder(s): IC618"));
    assert!(w.holds("/opt/cadence/IC618/oa"));
    assert_eq!(
        w.files["/opt/cadence/IC618/.c2s-from-bundle"],
        "Provided by the bulk bundle Analog_RHEL_8.tar.gz. Removed when CADENCE/TOOLS/IC618.tar.gz is extracted over it.\n"
    );
    assert_eq!(w.files["/opt/cadence/.c2s-bundles/Analog_RHEL_8.tar.gz.done"], "IC618");
    let log = w.cadence();
    assert!(has(
        &log,
        "[INFO] Bulk bundle Analog_RHEL_8.tar.gz already extracted - skipping (delete /opt/cadence/.c2s-bundles/Analog_RHEL_8.tar.gz.done to force)."
    ));
}

#[test]
fn tool_archive_replaces_the_bundles_copy_once() {
    let mut w = world();
    w.archive("/m/CADENCE/Digital.tar.gz", &["GENUS211/old", "IC618/oa", "IC618/bin", "SHARED/x"]);
    w.archive("/m/CADENCE/TOOLS/IC618.tar.gz", &["IC618/", "IC618/bin"]);
    let log = w.cadence();
    assert!(has(&log, "[SUCCESS] Digital.tar.gz extracted - provided 3 tool folder(s): GENUS211, IC618, SHARED"));
    assert!(has(&log, "[INFO] IC618 came from a bulk bundle - overwriting it with TOOLS/IC618.tar.gz..."));
    assert_eq!(w.files["/opt/cadence/IC618/bin"], "/m/CADENCE/TOOLS/IC618.tar.gz");
    assert_eq!(w.files["/opt/cadence/IC618/oa"], "/m/CADENCE/Digital.tar.gz");
    assert!(!w.holds("/opt/cadence/IC618/.c2s-from-bundle"));
    assert!(w.holds("/opt/cadence/GENUS211/.c2s-from-bundle"));
    let log = w.cadence();
    assert!(has(&log, "[INFO] IC618 already installed at /opt/cadence/IC618 - skipping."));
}

#[test]
fn bundle_keeps_what_is_there() {
    let mut w = world();
    w.add_file("/opt/cadence/IC618/bin", "newer");
    w.archive("/m/CADENCE/Digital.tar.gz", &["IC618/bin"]);
    let log = w.cadence();
    assert_eq!(w.files["/opt/cadence/IC618/bin"], "newer");
    assert!(!w.holds("/opt/cadence/IC618/.c2s-from-bundle"));
    assert!(has(
        &log,
        "[INFO] Digital.tar.gz extracted - no new tool folders (everything it carries was already installed)."
    ));
}

#[test]
fn broken_bundle_gets_no_stamp() {
    let mut w = world();
    w.add_file("/m/CADENCE/Bad.tar.gz", "not an archive");
    let log = w.cadence();
    assert!(has(&log, "[ERROR] Failed to extract Bad.tar.gz: tar exited with Some(2)"));
    assert!(!w.holds("/opt/cadence/.c2s-bundles/Bad.tar.gz.done"));
}

#[test]
fn folders_of_a_torn_bundle_are_marked() {
    let mut w = world();
    w.archive("/m/CADENCE/Digital.tar.gz", &["IC618/half", "GENUS211/x"]);
    w.torn.insert("/m/CADENCE/Digital.tar.gz".to_string());
    w.archive("/m/CADENCE/TOOLS/IC618.tar.gz", &["IC618/", "IC618/bin"]);
    let log = w.cadence();
    assert!(has(&log, "[ERROR] Failed to extract Digital.tar.gz: tar exited with Some(2)"));
    assert!(has(&log, "[INFO] IC618 came from a bulk bundle - overwriting it with TOOLS/IC618.tar.gz..."));
    assert!(w.holds("/opt/cadence/IC618/bin"));
    assert!(!w.holds("/opt/cadence/.c2s-bundles/Digital.tar.gz.done"));
    w.torn.clear();
    let log = w.cadence();
    assert!(has(&log, "[SUCCESS] Digital.tar.gz extracted - provided 1 tool folder(s): GENUS211"));
    assert!(w.holds("/opt/cadence/.c2s-bundles/Digital.tar.gz.done"));
}

#[test]
fn payload_is_copied_across_file_systems() {
    let mut w = world();
    w.apart = true;
    w.archive("/m/CADENCE/TOOLS/JASPER.gtar", &["outer/bin/x", "outer/lib/y"]);
    let log = w.cadence();
    assert!(has(&log, "[SUCCESS] JASPER installed (2 entries)."));
    assert!(w.holds("/opt/cadence/JASPER/bin/x"));
    assert!(w.holds("/opt/cadence/JASPER/lib/y"));
    assert!(!w.holds("/tmp/cadence_gtar_extract_JASPER"));
    assert!(w.commands.contains(
        &"$ cp -a -T /tmp/cadence_gtar_extract_JASPER/outer/bin /opt/cadence/JASPER/bin".to_string()
    ));
}

#[test]
fn entries_that_cannot_be_copied_do_not_count() {
    let mut w = world();
    w.apart = true;
    w.broken.insert("cp".to_string());
    w.archive("/m/CADENCE/TOOLS/JASPER.gtar", &["bin", "lib"]);
    let log = w.cadence();
    assert!(has(
        &log,
        "[ERROR] Extracted JASPER.gtar but found nothing to move into /opt/cadence/JASPER - check the archive layout manually."
    ));
}

#[test]
fn doubly_wrapped_archive_is_unwrapped() {
    let mut w = world();
    w.archive("/m/CADENCE/TOOLS/JASPER.tar.gz.gtar", &["outer/", "outer/inner/", "outer/inner/bin/", "outer/inner/README"]);
    let log = w.cadence();
    assert!(has(&log, "[INFO] Found double-wrapped archive JASPER.tar.gz.gtar - extracting as JASPER..."));
    assert!(has(&log, "[SUCCESS] JASPER installed (2 entries)."));
    assert!(w.holds("/opt/cadence/JASPER/README"));
    assert!(w.holds("/opt/cadence/JASPER/bin"));
    assert!(!w.holds("/tmp/cadence_gtar_extract_JASPER"));
    let log = w.cadence();
    assert!(has(&log, "[INFO] JASPER already exists at /opt/cadence/JASPER - skipping re-extraction."));
}

#[test]
fn doubly_wrapped_archive_replaces_the_bundles_copy() {
    let mut w = world();
    w.archive("/m/CADENCE/Digital.tar.gz", &["JASPER/old", "X/y"]);
    w.archive("/m/CADENCE/TOOLS/JASPER.gtar", &["a/new", "b/new"]);
    let log = w.cadence();
    assert!(has(&log, "[INFO] JASPER came from a bulk bundle - replacing it with JASPER.gtar..."));
    assert!(!w.holds("/opt/cadence/JASPER/old"));
    assert!(w.holds("/opt/cadence/JASPER/a/new"));
}

#[test]
fn doubly_wrapped_archives_that_cannot_be_installed() {
    let mut w = world();
    w.archive("/m/CADENCE/TOOLS/.tar.gtar", &["a/b"]);
    w.add_file("/m/CADENCE/TOOLS/BAD.gtar", "not an archive");
    w.archive("/m/CADENCE/TOOLS/EMPTY.gtar", &[]);
    let log = w.cadence();
    assert!(has(&log, "[ERROR] Could not derive a target directory name from .tar.gtar - skipping."));
    assert!(has(
        &log,
        "[ERROR] Failed to extract BAD.gtar: tar exited with Some(2). Extract it into /opt/cadence/BAD manually."
    ));
    assert!(has(
        &log,
        "[ERROR] Extracted EMPTY.gtar but found nothing to move into /opt/cadence/EMPTY - check the archive layout manually."
    ));
    assert!(!w.holds("/tmp/cadence_gtar_extract_BAD"));
    assert!(!w.holds("/tmp/cadence_gtar_extract_EMPTY"));
}

#[test]
fn environment_is_granted_once() {
    let mut w = world();
    w.add_file("/home/alice/.bashrc", "# rc\n");
    let (r, log) = w.carry_out(Procedure::GrantEnv(grant_env("alice")));
    assert_eq!(r, Ok(()));
    assert_eq!(log.last().unwrap(), "[SUCCESS] Configured .bashrc for 'alice'.");
    let granted = w.files["/home/alice/.bashrc"].clone();
    assert_eq!(
        granted,
        "# rc\n\n# Source VLSI Lab EDA Tool Launcher\nif [ -f /opt/vlsilab/eda-launcher.sh ]; then\n    source /opt/vlsilab/eda-launcher.sh\nfi\n"
    );
    let (r, log) = w.carry_out(Procedure::GrantEnv(grant_env("alice")));
    assert_eq!(r, Ok(()));
    assert_eq!(log, texts(&["[INFO] .bashrc for 'alice' is already configured."]));
    assert_eq!(w.files["/home/alice/.bashrc"], granted);
}

#[test]
fn environment_needs_a_home() {
    let mut w = world();
    let (r, log) = w.carry_out(Procedure::GrantEnv(grant_env("ghost")));
    assert_eq!(r, Err("/home/ghost/.bashrc does not exist".to_string()));
    assert_eq!(log, texts(&["[WARN] Home directory or .bashrc missing for 'ghost'."]));
}

#[test]
fn existing_account_is_not_created_again() {
    let mut w = world();
    w.users.insert("alice".to_string());
    w.add_file("/home/alice/.bashrc", "");
    let p = create_or_configure_student_user("alice", "Staff", "7");
    let (r, log) = w.carry_out(Procedure::CreateUser(p));
    assert_eq!(r, Ok(()));
    assert_eq!(log[1], "[USER MGR] User account 'alice' already exists.");
    assert!(!w.commands.iter().any(|c| c.starts_with("$ useradd")));
}

#[test]
fn failed_account_is_reported() {
    let mut w = world();
    w.broken.insert("useradd".to_string());
    let p = create_or_configure_student_user("alice", "Staff", "7");
    let (r, log) = w.carry_out(Procedure::CreateUser(p));
    assert_eq!(r, Err("useradd failed: denied".to_string()));
    assert_eq!(log.last().unwrap(), "[ERROR] useradd failed: denied");
}

#[test]
fn vnc_is_granted_with_a_display_and_a_password() {
    let mut w = world();
    w.users.insert("bob".to_string());
    w.add_file("/etc/tigervnc/vncserver.users", ":1=alice\n");
    let (r, log) = w.drive(Procedure::GrantVnc(grant_vnc("bob")));
    match r {
        Reply::Text(Ok(p)) => assert_eq!(p, "ABCDEFGH"),
        other => panic!("{:?}", other),
    }
    assert_eq!(w.files["/etc/tigervnc/vncserver.users"], ":1=alice\n:2=bob\n");
    assert_eq!(w.files["/home/bob/.vnc/passwd"], format!("{:?}", "\nHGFEDCBA".as_bytes()));
    assert_eq!(log[0], "[USER MGR] Granting VNC (display :2) to 'bob'...");
    assert_eq!(
        log.last().unwrap(),
        "[SUCCESS] VNC granted to 'bob': password ABCDEFGH  (write this down now - it is not saved anywhere else and won't be shown again). Reach it with: ssh -L 5902:localhost:5902 bob@<this-host>, then point a VNC viewer at localhost:5902."
    );
    assert_eq!(log.iter().filter(|l| l.contains("ABCDEFGH")).count(), 1);
    assert_eq!(
        w.commands,
        texts(&[
            "$ id bob",
            "$ groupadd -f edausers",
            "$ usermod -aG edausers bob",
            "$ vncpasswd -f",
            "$ chown -R bob:bob /home/bob/.vnc",
            "$ chmod 700 /home/bob/.vnc",
            "$ chmod 600 /home/bob/.vnc/passwd",
            "$ restorecon -RFv /home/bob/.vnc",
            "$ systemctl daemon-reload",
            "$ systemctl enable --now vncserver@:2.service",
        ])
    );
    let (_, log) = w.drive(Procedure::GrantVnc(grant_vnc("bob")));
    assert!(has(&log, "[INFO] VNC display :2 already mapped to 'bob'."));
    assert_eq!(w.files["/etc/tigervnc/vncserver.users"], ":1=alice\n:2=bob\n");
}

#[test]
fn vnc_grant_goes_on_past_group_and_relabelling() {
    let mut w = world();
    w.users.insert("bob".to_string());
    w.broken.insert("groupadd".to_string());
    w.broken.insert("restorecon".to_string());
    let (r, _) = w.drive(Procedure::GrantVnc(grant_vnc("bob")));
    assert!(matches!(r, Reply::Text(Ok(_))));
}

#[test]
fn vnc_grant_stops_where_a_step_fails() {
    for (program, error) in [
        ("usermod", "Command 'usermod' failed with code Some(1)"),
        ("vncpasswd", "vncpasswd exited with Some(1): "),
        ("chown", "Command 'chown' failed with code Some(1)"),
        ("chmod", "Command 'chmod' failed with code Some(1)"),
        ("systemctl", "Command 'systemctl' failed with code Some(1)"),
    ] {
        let mut w = world();
        w.users.insert("bob".to_string());
        w.broken.insert(program.to_string());
        let (r, log) = w.drive(Procedure::GrantVnc(grant_vnc("bob")));
        match r {
            Reply::Text(Err(e)) => assert_eq!(e, error),
            other => panic!("{:?}", other),
        }
        assert!(!log.iter().any(|l| l.contains("ABCDEFGH")));
    }
}

#[test]
fn lab_users_are_listed_in_order() {
    let mut w = world();
    for u in ["zoe", "alice", "sysadmin2", "bob"] {
        w.users.insert(u.to_string());
        w.add_file(&format!("/home/{}/.bashrc", u), "# rc\n");
    }
    w.groups.insert("bob".to_string(), "bob wheel\n".to_string());
    w.groups.insert("zoe".to_string(), "zoe wheelie\n".to_string());
    w.add_file("/home/alice/.bashrc", ". /opt/vlsilab/eda-launcher.sh\n");
    w.add_file("/etc/tigervnc/vncserver.users", ":1=zoe\n");
    let users = match w.drive(Procedure::ListUsers(list_lab_users())) {
        (Reply::Users(u), log) => {
            assert!(log.is_empty());
            u
        }
        other => panic!("{:?}", other),
    };
    let shown: Vec<String> = users
        .iter()
        .map(|u| {
            format!(
                "{} {} {} {} {} {}",
                u.username, u.role, u.identifier, u.exists, u.bashrc_configured, u.vnc_configured
            )
        })
        .collect();
    assert_eq!(
        shown,
        texts(&[
            "alice Student - true true false",
            "bob Sysadmin - true false false",
            "sysadmin2 Sysadmin - true false false",
            "zoe Student - true false true",
        ])
    );
}

#[test]
fn nobody_is_listed_where_the_system_does_not_answer() {
    let session = start(Procedure::ListUsers(list_lab_users()));
    let site = world().site();
    let (session, _, todo) = session.step(Reply::Start, &site);
    match todo {
        Todo::Perform(Op::Capture(c)) => assert_eq!(
            announce(&c),
            "$ sh -c getent passwd | awk -F: '$3 >= 1000 && $3 < 60000 {print $1}'"
        ),
        other => panic!("{:?}", other),
    }
    let failed = Reply::Captured(Captured::Failed("no shell".to_string()));
    let (_, _, todo) = session.step(failed, &site);
    assert!(matches!(todo, Todo::Done(Reply::Users(u)) if u.is_empty()));
}

#[test]
fn accounts_exist_where_the_look_up_succeeds() {
    let answer = |code| Captured::Exited { code, stdout: String::new(), stderr: String::new() };
    assert!(check_user_exists(&answer(Some(0))));
    assert!(!check_user_exists(&answer(Some(1))));
    assert!(!check_user_exists(&answer(None)));
    assert!(!check_user_exists(&Captured::Failed("no id".to_string())));
}

#[test]
fn start_up_files_are_configured_where_they_mention_the_launcher() {
    assert!(is_bashrc_configured(&Some("x /opt/vlsilab/eda-launcher.sh y".to_string())));
    assert!(!is_bashrc_configured(&Some("/opt/vlsilab/eda-launcher".to_string())));
    assert!(!is_bashrc_configured(&None));
}

#[test]
fn roles_are_inferred_from_groups_and_names() {
    let groups = |s: &str| Captured::Exited {
        code: Some(0),
        stdout: s.to_string(),
        stderr: String::new(),
    };
    assert_eq!(infer_role(&groups("a wheel b"), "bob"), "Sysadmin");
    assert_eq!(infer_role(&groups("wheels"), "bob"), "Student");
    assert_eq!(infer_role(&groups(""), "sysadmin"), "Sysadmin");
    assert_eq!(infer_role(&groups(""), "xsysadmin"), "Student");
    assert_eq!(infer_role(&Captured::Failed("no id".to_string()), "bob"), "Student");
}
