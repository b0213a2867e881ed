use c2s_setup::exchange::{Captured, CommandLine, Fed, Next, Op, Reply, ReplyKind};
use c2s_setup::password::{fallback_bytes, password_from, random_password};
use c2s_setup::vnc::{
    allocate_vnc_display, find_vnc_display, is_vnc_configured, map_vnc_display, port_of_display,
};
use c2s_setup::vnc_grant::{grant_vnc, set_vnc_password};

const FILE: &str = "# displays\n:1=alice\n  :3 = bob \n\nnonsense\n:4 carol\n#:2=dave\n";

fn exited(code: i32) -> Captured {
    Captured::Exited { code: Some(code), stdout: String::new(), stderr: String::new() }
}

fn command_text(c: &CommandLine) -> String {
    format!("{} {}", c.program, c.args.join(" "))
}

#[test]
fn mapped_users_are_configured() {
    assert!(is_vnc_configured(FILE, "alice"));
    assert!(is_vnc_configured(FILE, "bob"));
    assert!(!is_vnc_configured(FILE, "carol"));
    assert!(!is_vnc_configured(FILE, "dave"));
    assert!(!is_vnc_configured(FILE, ""));
    assert!(!is_vnc_configured("", "alice"));
    assert!(is_vnc_configured("x=y=z", "y=z"));
    assert!(!is_vnc_configured("x=y=z", "z"));
}

#[test]
fn users_keep_their_display() {
    assert_eq!(allocate_vnc_display(FILE, "alice"), ":1");
    assert_eq!(allocate_vnc_display(FILE, "bob"), ":3");
    assert_eq!(allocate_vnc_display("odd=alice\n:7=alice\n", "alice"), "odd");
}

#[test]
fn new_users_get_the_lowest_free_display() {
    assert_eq!(allocate_vnc_display(FILE, "erin"), ":2");
    assert_eq!(allocate_vnc_display("", "erin"), ":1");
    assert_eq!(allocate_vnc_display(":1=a\n:2=b\n:4=d\n", "erin"), ":3");
    assert_eq!(allocate_vnc_display(":0=a\n", "erin"), ":1");
    assert_eq!(allocate_vnc_display(":+1=a\n:02=b\n", "erin"), ":3");
    assert_eq!(allocate_vnc_display("1=a\n:x=b\n", "erin"), ":1");
    assert_eq!(find_vnc_display("", "erin"), Some(":1".to_string()));
}

#[test]
fn ports_follow_displays() {
    assert_eq!(port_of_display(":1"), Some(5901));
    assert_eq!(port_of_display(":12"), Some(5912));
    assert_eq!(port_of_display("::3"), Some(5903));
    assert_eq!(port_of_display("4"), Some(5904));
    assert_eq!(port_of_display("odd"), Some(5901));
    assert_eq!(port_of_display(":"), Some(5901));
    assert_eq!(port_of_display(":4294961395"), Some(4294967295));
    assert_eq!(port_of_display(":4294961396"), None);
}

#[test]
fn mapping_is_appended() {
    assert_eq!(map_vnc_display("", ":1", "alice"), Some(":1=alice\n".to_string()));
    assert_eq!(
        map_vnc_display("# head\n:1=alice\n", ":2", "bob"),
        Some("# head\n:1=alice\n:2=bob\n".to_string())
    );
    assert_eq!(map_vnc_display("a\r\nb", ":1", "u"), Some("a\nb\n:1=u\n".to_string()));
}

#[test]
fn prior_mapping_of_the_display_is_replaced() {
    assert_eq!(
        map_vnc_display(":1=alice\n  :1=carol\n:11=x\n", ":1", "bob"),
        Some(":11=x\n:1=bob\n".to_string())
    );
}

#[test]
fn prior_mapping_is_replaced_however_it_is_written() {
    assert_eq!(map_vnc_display(":1 = bob\n", ":1", "alice"), Some(":1=alice\n".to_string()));
    assert_eq!(
        map_vnc_display("\t:1\t=bob\r\n# :1=x\n:1 =alice\n:10=z\n", ":1", "alice"),
        Some("# :1=x\n:10=z\n:1=alice\n".to_string())
    );
}

#[test]
fn displays_that_no_line_reads_back_are_replaced_too() {
    assert_eq!(map_vnc_display("a=b=old\n", "a=b", "u"), Some("a=b=u\n".to_string()));
    assert_eq!(map_vnc_display(" #1=old\n#2=x\n", "#1", "u"), Some("#2=x\n#1=u\n".to_string()));
    assert_eq!(map_vnc_display("d =old\n", "d ", "u"), Some("d =u\n".to_string()));
    let once = map_vnc_display("", "a=b", "u").unwrap();
    assert_eq!(map_vnc_display(&once, "a=b", "u"), None);
}

#[test]
fn standing_line_leaves_even_a_second_mapping() {
    assert_eq!(map_vnc_display(":1=alice\n:1 = bob\n", ":1", "alice"), None);
}

#[test]
fn written_display_is_given_to_nobody_else() {
    for content in ["", ":1=a\n", ":2 = b\n", ":1= u\n", "x=u\n"] {
        let d = allocate_vnc_display(content, "u");
        let c = map_vnc_display(content, &d, "u").unwrap_or(content.to_string());
        assert_eq!(allocate_vnc_display(&c, "u"), d);
        assert_ne!(allocate_vnc_display(&c, "v"), d);
    }
    // A user with two displays keeps the first where its line stands as it is written.
    assert_eq!(map_vnc_display(":3=u\n:5=u\n", ":3", "u"), None);
}

#[test]
fn mapping_that_stands_there_is_left() {
    assert_eq!(map_vnc_display("  :1=alice \n", ":1", "alice"), None);
    let once = map_vnc_display(":2=x\n", ":1", "alice").unwrap();
    assert_eq!(map_vnc_display(&once, ":1", "alice"), None);
}

#[test]
fn second_grant_reuses_the_display() {
    let display = allocate_vnc_display(FILE, "erin");
    let mapped = map_vnc_display(FILE, &display, "erin").unwrap();
    assert!(is_vnc_configured(&mapped, "erin"));
    assert!(is_vnc_configured(&mapped, "alice"));
    assert_eq!(allocate_vnc_display(&mapped, "erin"), display);
    assert_eq!(allocate_vnc_display(&mapped, "frank"), ":4");
}

#[test]
fn passwords_come_from_an_unambiguous_alphabet() {
    let all: Vec<u8> = (0..=255).collect();
    let password = password_from(&all);
    assert_eq!(password.chars().count(), 256);
    assert!(password.starts_with("ABCDEFGHJKLMNPQRSTUVWXYZabcdefghijkmnopqrstuvwxyz23456789AB"));
    assert!(!password.contains(|c| "0O1lI".contains(c)));
    assert!(password.chars().all(|c| c.is_ascii_alphanumeric()));
}

#[test]
fn passwords_follow_the_bytes() {
    assert_eq!(random_password(&Some(vec![0, 1, 56, 57, 255, 24, 48, 49]), 0, 8), "AB9Adaz2");
    assert_eq!(random_password(&None, 0, 8), password_from(&fallback_bytes(0, 8)));
    for bytes in [vec![], vec![1; 7], vec![1; 9]] {
        assert_eq!(random_password(&Some(bytes), 5, 8), password_from(&fallback_bytes(5, 8)));
    }
    assert_eq!(random_password(&Some(vec![1]), 5, 0), "");
}

#[test]
fn fallback_bytes_spread_from_the_seed() {
    let expected: Vec<u8> =
        (0..8usize).map(|i| (123456789usize.wrapping_add(i.wrapping_mul(7919))) as u8).collect();
    assert_eq!(fallback_bytes(123456789, 8), expected);
    assert_eq!(fallback_bytes(5, 0), Vec::<u8>::new());
}

#[test]
fn grant_to_nobody_fails_at_once() {
    let g = grant_vnc("ghost");
    let (g, turn) = g.step(Reply::Start);
    match turn.next {
        Next::Do(Op::Capture(c)) => assert_eq!(command_text(&c), "id ghost"),
        _ => panic!("no look-up"),
    }
    let (g, turn) = g.step(Reply::Captured(exited(1)));
    assert!(turn.log.is_empty());
    match turn.next {
        Next::Finish(Reply::Text(Err(e))) => assert_eq!(e, "user 'ghost' does not exist"),
        _ => panic!("no error"),
    }
    assert!(g.waits() == ReplyKind::Never);
}

#[test]
fn grant_needs_a_display_with_a_port() {
    let (g, _) = grant_vnc("alice").step(Reply::Start);
    let (g, _) = g.step(Reply::Captured(exited(0)));
    assert!(g.admits(&Reply::Text(Ok(String::new()))));
    assert!(g.admits(&Reply::Text(Err("missing".to_string()))));
    assert!(!g.admits(&Reply::Text(Ok(":4294967295=alice\n".to_string()))));
}

#[test]
fn password_goes_to_the_obfuscating_program_only() {
    let (p, _) = set_vnc_password("alice").step(Reply::Start);
    let (p, turn) = p.step(Reply::Bytes(Some(vec![0, 1, 2, 3, 4, 5, 6, 7])));
    match turn.next {
        Next::Do(Op::Feed(c, text)) => {
            assert_eq!(command_text(&c), "vncpasswd -f");
            assert_eq!(text, "ABCDEFGH\n");
        }
        _ => panic!("nothing was fed"),
    }
    let fed = Fed::Exited { code: Some(0), stdout: vec![9, 8, 7], stderr: String::new() };
    let (p, _) = p.step(Reply::Fed(fed));
    let (_, turn) = p.step(Reply::Done(Ok(())));
    match turn.next {
        Next::Do(Op::WriteBytes(file, bytes)) => {
            assert_eq!(file, "/home/alice/.vnc/passwd");
            assert_eq!(bytes, vec![9, 8, 7]);
        }
        _ => panic!("nothing was written"),
    }
}

#[test]
fn clock_stands_in_for_random_bytes() {
    let (p, _) = set_vnc_password("alice").step(Reply::Start);
    let (_, turn) = p.step(Reply::Bytes(Some(vec![0; 7])));
    assert!(matches!(turn.next, Next::Do(Op::ClockNanos)));
    let (p, _) = set_vnc_password("alice").step(Reply::Start);
    let (p, turn) = p.step(Reply::Bytes(None));
    assert!(matches!(turn.next, Next::Do(Op::ClockNanos)));
    let (_, turn) = p.step(Reply::Nanos(77));
    match turn.next {
        Next::Do(Op::Feed(_, text)) => {
            assert_eq!(text, format!("{}\n", random_password(&None, 77, 8)))
        }
        _ => panic!("nothing was fed"),
    }
}

fn feeding_error(fed: Fed) -> String {
    let (p, _) = set_vnc_password("alice").step(Reply::Start);
    let (p, _) = p.step(Reply::Bytes(Some(vec![0; 8])));
    let (_, turn) = p.step(Reply::Fed(fed));
    match turn.next {
        Next::Finish(Reply::Text(Err(e))) => e,
        _ => panic!("no error"),
    }
}

#[test]
fn obfuscation_errors_are_told_apart() {
    assert_eq!(
        feeding_error(Fed::SpawnFailed("No such file".to_string())),
        "failed to spawn vncpasswd: No such file"
    );
    assert_eq!(feeding_error(Fed::NoStdin), "vncpasswd gave no stdin");
    assert_eq!(feeding_error(Fed::IoFailed("Broken pipe".to_string())), "Broken pipe");
    assert_eq!(
        feeding_error(Fed::Exited { code: Some(3), stdout: vec![], stderr: " bad \n".to_string() }),
        "vncpasswd exited with Some(3): bad"
    );
    assert_eq!(
        feeding_error(Fed::Exited { code: None, stdout: vec![], stderr: String::new() }),
        "vncpasswd exited with None: "
    );
}
