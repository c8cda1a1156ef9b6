use outerclaw::platform::command::{command, describe_failure, expect_success, CommandOutput};
use outerclaw::platform::container::{
    is_stat_splitting, restart_service, start_ticks, LinuxContainer, Patience, ProcEntry,
};
use outerclaw::platform::etime::{is_etime_in_range, parse_etime};
use outerclaw::platform::freebsd::{is_usage_fitting, FreeBSDRc, ProcOutputs};
use outerclaw::platform::linux::{
    disk_usage_mb, immutable_flags, io_pressure_avg10, is_memory_fitting, read_avg10, LinuxSystemd,
    NotifyTarget,
};
use outerclaw::platform::macos::{find_next_system_uid, is_ps_fitting, MacOSLaunchd};
use outerclaw::platform::{freebsd, macos};
use outerclaw::platform::{detect, is_container, LinuxKind, ProcessMetrics, ServiceActive};
use outerclaw::util::time_fmt::Timestamp;
use std::path::PathBuf;

fn ran(code: i32, stdout: &str, stderr: &str) -> CommandOutput {
    CommandOutput {
        success: code == 0,
        code: Some(code),
        stdout: stdout.into(),
        stderr: stderr.into(),
    }
}

fn words(c: outerclaw::platform::command::CommandLine) -> String {
    let mut all = vec![c.program];
    all.extend(c.args);
    all.join(" ")
}

fn at(secs: u64) -> Timestamp {
    Timestamp::from_secs(secs)
}

const STATUS: &str = "Name:\tnode\nState:\tS (sleeping)\nThreads:\t7\nVmRSS:\t  2048 kB\n\
    voluntary_ctxt_switches:\t30\nnonvoluntary_ctxt_switches:\t4\n";
const IO: &str = "rchar: 1\nread_bytes: 512\nwrite_bytes: 1024\ncancelled_write_bytes: 9\n";

// ── Common ────────────────────────────────────────────────────────────

#[test]
fn the_platform_is_detected() {
    assert_eq!(detect(true, true, true), LinuxKind::Systemd);
    assert_eq!(detect(false, true, true), LinuxKind::OpenRc);
    assert_eq!(detect(false, false, true), LinuxKind::Container);
    assert_eq!(detect(false, false, false), LinuxKind::Generic);
    assert!(is_container(true, false, None));
    assert!(is_container(false, true, None));
    for c in ["0::/docker/1", "1:name=systemd:/lxc/x", "/kubepods/pod"] {
        assert!(is_container(false, false, Some(c)));
    }
    assert!(!is_container(false, false, Some("0::/init.scope")));
    assert!(!is_container(false, false, None));
}

#[test]
fn failures_are_described() {
    let c = command("a", vec!["b", "c d"]);
    assert_eq!((c.program.as_str(), c.args.len()), ("a", 2));
    assert_eq!(describe_failure("x y", &ran(3, "", "boom")), "x y failed (exit 3): boom");
    let killed = CommandOutput { code: None, ..ran(1, "", "") };
    assert_eq!(describe_failure("x", &killed), "x failed (exit -1): ");
    assert_eq!(expect_success("x", &ran(0, "", "noise")), Ok(()));
    assert!(expect_success("x", &ran(1, "", "")).is_err());
}

// ── Linux ─────────────────────────────────────────────────────────────

#[test]
fn linux_test_platform_name() {
    let p = LinuxSystemd::new(None);
    assert_eq!(p.platform_name(), "linux-systemd");
}

#[test]
fn test_service_active_display() {
    assert_eq!(ServiceActive::Active.as_str(), "active");
    assert_eq!(ServiceActive::Failed.as_str(), "failed");
    assert_eq!(ServiceActive::Unknown.as_str(), "unknown");
    assert_eq!(ServiceActive::Inactive.as_str(), "inactive");
    assert_eq!(ServiceActive::Activating.as_str(), "activating");
}

#[test]
fn linux_test_io_pressure_parsing() {
    let content = "some avg10=1.25 avg60=0.50 avg300=0.10 total=123456\n\
        full avg10=9.00 avg60=0.00 avg300=0.00 total=1\n";
    let avg10 = io_pressure_avg10(content).unwrap();
    assert_eq!(avg10, "1.25");
    assert!(avg10.parse::<f32>().unwrap() >= 0.0, "avg10 should be non-negative");
    assert_eq!(io_pressure_avg10("full avg10=9.00\n"), None);
    assert_eq!(io_pressure_avg10(""), None);
    assert_eq!(read_avg10("some avg10=1 avg10=2\nsome x avg10=3", "some"), vec!["1", "2", "3"]);
}

#[test]
fn linux_test_collect_proc_metrics_self() {
    let p = LinuxSystemd::new(None);
    assert!(is_memory_fitting(STATUS));
    let m = p.collect_proc_metrics(42, at(5), STATUS, Some(IO), Some(11));
    assert_eq!(m.pid, 42);
    assert_eq!(m.state, "S");
    assert_eq!(m.threads, 7);
    assert_eq!(m.rss_bytes, 2048 * 1024);
    assert_eq!((m.voluntary_ctxt_switches, m.nonvoluntary_ctxt_switches), (30, 4));
    assert_eq!((m.read_bytes, m.write_bytes, m.fd_count), (512, 1024, 11));
    assert_eq!(m.timestamp, at(5));
}

#[test]
fn partial_reads_degrade_gracefully() {
    let p = LinuxSystemd::new(None);
    let m = p.collect_proc_metrics(1, at(0), "State:\nThreads: x\nVmRSS: ? kB\n", None, None);
    let d = ProcessMetrics::default();
    assert_eq!((m.state, m.threads, m.rss_bytes), (d.state, d.threads, d.rss_bytes));
    assert_eq!((m.read_bytes, m.fd_count), (0, 0));
    let again = p.collect_proc_metrics(1, at(0), "Threads: 3\nThreads: 9\n", None, None);
    assert_eq!(again.threads, 9);
    assert!(!is_memory_fitting("VmRSS: 18014398509481984 kB\n"));
    assert!(is_memory_fitting("VmRSS: 18014398509481983 kB\n"));
}

#[test]
fn notifications_find_their_socket() {
    let to = |s: Option<&str>| LinuxSystemd::new(s.map(|s| s.into())).sd_notify(108);
    assert!(matches!(to(None), Ok(NotifyTarget::Nowhere)));
    match to(Some("@a/b")) {
        Ok(NotifyTarget::Abstract(b)) => assert_eq!(b, b"\0a/b"),
        _ => panic!("not abstract"),
    }
    match to(Some("/run/notify")) {
        Ok(NotifyTarget::File(f)) => assert_eq!(f, "/run/notify"),
        _ => panic!("not a file"),
    }
    let long = format!("@{}", "x".repeat(108));
    assert_eq!(
        to(Some(&long)).err().as_deref(),
        Some("sd_notify: abstract socket path too long")
    );
    assert!(to(Some(&format!("@{}", "x".repeat(107)))).is_ok());
    let p = LinuxSystemd::new(None);
    assert_eq!(p.notify_ready(), "READY=1");
    assert_eq!(p.notify_watchdog(), "WATCHDOG=1");
    assert_eq!(p.notify_stopping(), "STOPPING=1");
}

#[test]
fn systemctl_commands() {
    let p = LinuxSystemd::new(None);
    assert_eq!(words(p.systemctl_show("g", "MainPID")), "systemctl show g --property=MainPID --value");
    assert_eq!(words(p.sudo_systemctl("daemon-reload", "")), "sudo systemctl daemon-reload");
    assert_eq!(words(p.restart_service("g")), "sudo systemctl restart g");
    assert_eq!(words(p.stop_service("g")), "sudo systemctl stop g");
    assert_eq!(words(p.kill_service("g")), "sudo systemctl kill --signal=SIGKILL g");
    assert_eq!(words(p.reset_failed_service("g")), "sudo systemctl reset-failed g");
    assert_eq!(words(p.enable_service("g")), "sudo systemctl enable g");
    assert_eq!(
        words(p.create_system_user("u", "/h")),
        "sudo useradd --system --shell /usr/sbin/nologin --home-dir /h --create-home u"
    );
    assert_eq!(words(p.delete_user("u")), "sudo userdel u");
    assert_eq!(LinuxSystemd::unit_path("a.service"), "/etc/systemd/system/a.service");
    assert_eq!(LinuxSystemd::timer_name("a.service").as_deref(), Some("a.timer"));
    assert_eq!(LinuxSystemd::timer_name("a.timer"), None);
    assert_eq!(LinuxSystemd::shown_property("P", &ran(0, " 12\n", "")), Ok("12".to_string()));
    assert_eq!(
        LinuxSystemd::shown_property("P", &ran(4, "", "no")),
        Err("systemctl show P failed (exit 4): no".to_string())
    );
    assert_eq!(
        LinuxSystemd::systemctl_result("stop", "g", &ran(5, "", "e")),
        Err("sudo systemctl stop g failed (exit 5): e".to_string())
    );
    assert!(LinuxSystemd::user_created("u", &ran(9, "", "")).is_ok());
    assert!(LinuxSystemd::user_created("u", &ran(1, "", "")).is_err());
    assert!(LinuxSystemd::user_deleted("u", &ran(6, "", "")).is_ok());
    assert!(LinuxSystemd::user_deleted("u", &ran(8, "", "")).is_err());
}

#[test]
fn systemctl_answers() {
    let p = LinuxSystemd::new(None);
    assert_eq!(p.find_service_pid("123"), Some(123));
    for none in ["0", "", "abc", "-1", "4294967296"] {
        assert_eq!(p.find_service_pid(none), None);
    }
    for (word, state) in [
        ("active", ServiceActive::Active),
        ("inactive", ServiceActive::Inactive),
        ("deactivating", ServiceActive::Inactive),
        ("failed", ServiceActive::Failed),
        ("activating", ServiceActive::Activating),
        ("reloading", ServiceActive::Activating),
        ("maintenance", ServiceActive::Unknown),
    ] {
        assert_eq!(p.service_state(word), state);
    }
    assert_eq!(LinuxSystemd::active_since("1500000"), Some(1500000));
    assert_eq!(LinuxSystemd::active_since("0"), None);
    assert_eq!(LinuxSystemd::active_since("n/a"), None);
}

#[test]
fn the_immutable_bit_is_set_and_cleared() {
    assert_eq!(immutable_flags(0x80000, true), 0x80010);
    assert_eq!(immutable_flags(0x80010, false), 0x80000);
    assert_eq!(immutable_flags(immutable_flags(0x80000, true), false), 0x80000);
    assert_eq!(immutable_flags(0x10, true), 0x10);
}

#[test]
fn disk_usage_rounds_down() {
    assert_eq!(disk_usage_mb(11), 0);
    assert_eq!(disk_usage_mb(1024 * 1024), 1);
    assert_eq!(disk_usage_mb(3 * 1024 * 1024 - 1), 2);
}

// ── Container ─────────────────────────────────────────────────────────

#[test]
fn container_test_platform_name() {
    let p = LinuxContainer::new();
    assert_eq!(p.platform_name(), "linux-container");
}

#[test]
fn container_test_io_pressure_parsing() {
    let avg10 = io_pressure_avg10("some avg10=0.00 avg60=0.00 avg300=0.00 total=0\n").unwrap();
    assert!(avg10.parse::<f32>().unwrap() >= 0.0, "avg10 should be non-negative");
}

#[test]
fn container_test_collect_proc_metrics_self() {
    let p = LinuxContainer::new();
    let m = p.collect_proc_metrics(42, at(5), STATUS, Some(IO), Some(11));
    assert_eq!(m.pid, 42);
    assert!(!m.state.is_empty());
    assert!(m.threads >= 1);
}

#[test]
fn test_service_management_errors() {
    let p = LinuxContainer::new();
    assert!(p.install_service("test", "content").is_err());
    assert!(p.uninstall_service("test").is_err());
    assert!(p.enable_service("test").is_err());
    assert!(p.create_system_user("test", "/tmp").is_err());
    assert!(p.delete_user("test").is_err());
}

#[test]
fn container_test_notify_noop() {
    let p = LinuxContainer::new();
    assert!(p.notify_ready().is_ok());
    assert!(p.notify_watchdog().is_ok());
    assert!(p.notify_stopping().is_ok());
}

#[test]
fn test_reset_failed_noop() {
    let p = LinuxContainer::new();
    assert!(p.reset_failed_service("anything").is_ok());
}

#[test]
fn container_errors_name_the_service() {
    let p = LinuxContainer::new();
    assert_eq!(
        p.install_service("a", "").unwrap_err(),
        "install_service(a): not supported in container mode — \
         use container runtime (Docker, Podman) to manage services"
    );
    assert_eq!(
        p.uninstall_service("a").unwrap_err(),
        "uninstall_service(a): not supported in container mode"
    );
    assert_eq!(
        p.create_system_user("a", "/").unwrap_err(),
        "create_system_user(a): not supported in container mode — \
         add users in the Dockerfile/Containerfile instead"
    );
}

#[test]
fn processes_are_found_by_command_line() {
    let e = |pid: &str, cmd: Option<&str>| -> ProcEntry { (pid.into(), cmd.map(|c| c.into())) };
    let entries = vec![
        e("self", Some("openclaw-gateway")),
        e("1", Some("openclaw-gateway")),
        e("50", Some("openclaw-gateway")),
        e("7", None),
        e("8", Some("node\0openclaw\0gateway\0")),
        e("9", Some("x/openclaw-gateway\0")),
    ];
    let p = LinuxContainer::new();
    assert_eq!(LinuxContainer::find_pid_by_cmdline(&entries, 50, "gateway"), Some(8));
    assert_eq!(p.find_service_pid(&entries, 50, "openclaw-gateway.service"), Some(9));
    let spaced = vec![e("8", Some("node\0openclaw\0gateway\0"))];
    assert_eq!(p.find_service_pid(&spaced, 50, "openclaw-gateway.service"), Some(8));
    assert_eq!(p.find_service_pid(&spaced, 50, "other"), None);
    assert_eq!(p.service_state(true, true), ServiceActive::Active);
    assert_eq!(p.service_state(true, false), ServiceActive::Inactive);
    assert_eq!(p.service_state(false, false), ServiceActive::Inactive);
}

#[test]
fn a_stopping_process_is_given_thirty_looks() {
    assert_eq!(restart_service(0, true), Patience::Wait);
    assert_eq!(restart_service(29, true), Patience::Wait);
    assert_eq!(restart_service(30, true), Patience::Kill);
    assert_eq!(restart_service(3, false), Patience::Done);
}

#[test]
fn start_ticks_are_the_twentieth_field() {
    let fields: Vec<String> = (3..40).map(|n| n.to_string()).collect();
    let stat = format!("12 (a ) b) S {}", fields.join(" "));
    assert!(is_stat_splitting(&stat));
    assert_eq!(start_ticks(&stat), Some(21));
    assert_eq!(start_ticks("12 (a) S 1 2"), None);
    assert_eq!(start_ticks("no brackets"), None);
    assert!(!is_stat_splitting("12 (a)"));
    assert!(is_stat_splitting("12 (a) "));
    assert!(!is_stat_splitting("12 (a)é"));
}

// ── macOS ─────────────────────────────────────────────────────────────

#[test]
fn macos_test_platform_name() {
    let p = MacOSLaunchd::new();
    assert_eq!(p.platform_name(), "macos-launchd");
}

#[test]
fn test_service_to_label() {
    assert_eq!(
        MacOSLaunchd::service_to_label("oc-outerclaw.service"),
        "com.outerclaw.oc-outerclaw"
    );
    assert_eq!(
        MacOSLaunchd::service_to_label("openclaw-gateway.service"),
        "com.outerclaw.openclaw-gateway"
    );
    assert_eq!(
        MacOSLaunchd::service_to_label("oc-snapshot"),
        "com.outerclaw.oc-snapshot"
    );
    assert_eq!(MacOSLaunchd::service_to_label("x.plist"), "com.outerclaw.x");
    assert_eq!(MacOSLaunchd::service_to_label("x.plist.service"), "com.outerclaw.x.plist");
}

#[test]
fn test_plist_path() {
    let path = PathBuf::from(MacOSLaunchd::plist_path("com.outerclaw.oc-outerclaw"));
    assert_eq!(
        path,
        PathBuf::from("/Library/LaunchDaemons/com.outerclaw.oc-outerclaw.plist")
    );
}

#[test]
fn macos_test_parse_etime() {
    assert_eq!(macos::parse_etime("01:23"), Some(83));
    assert_eq!(macos::parse_etime("1:01:23"), Some(3683));
    assert_eq!(
        macos::parse_etime("2-01:23:45"),
        Some(2 * 86400 + 3600 + 23 * 60 + 45)
    );
    assert_eq!(macos::parse_etime(""), None);
    assert_eq!(macos::parse_etime("-"), None);
}

#[test]
fn macos_test_io_pressure_none() {
    let p = MacOSLaunchd::new();
    assert_eq!(p.io_pressure_avg10(), None);
}

#[test]
fn macos_test_notify_noop() {
    let p = MacOSLaunchd::new();
    assert!(p.notify_ready().is_ok());
    assert!(p.notify_watchdog().is_ok());
    assert!(p.notify_stopping().is_ok());
}

#[test]
fn launchctl_is_read() {
    let p = MacOSLaunchd::new();
    let label = "com.outerclaw.x";
    assert_eq!(p.find_service_pid("{\n\t\"PID\" = 12345;\n}", label), Some(12345));
    assert_eq!(p.find_service_pid("PID = 0;\n77 0 com.outerclaw.x\n", label), Some(77));
    assert_eq!(p.find_service_pid("- 0 com.outerclaw.x\n", label), None);
    assert_eq!(p.find_service_pid("77 0 other\n", label), None);
    assert_eq!(p.service_state(Some("\tstate = running\n"), false), ServiceActive::Active);
    assert_eq!(p.service_state(Some("state=WAITING\n"), false), ServiceActive::Inactive);
    assert_eq!(p.service_state(Some("state = not running\n"), false), ServiceActive::Inactive);
    assert_eq!(p.service_state(Some("state = odd\n\"PID\""), true), ServiceActive::Unknown);
    assert_eq!(p.service_state(Some("\"PID\" = 1;"), false), ServiceActive::Active);
    assert_eq!(p.service_state(Some(""), true), ServiceActive::Unknown);
    assert_eq!(p.service_state(None, true), ServiceActive::Inactive);
    assert_eq!(p.service_state(None, false), ServiceActive::Unknown);
}

#[test]
fn macos_metrics() {
    let p = MacOSLaunchd::new();
    let ps = "PID STAT RSS VSZ WQ\n42 S 100 200 -\n";
    assert!(is_ps_fitting(ps));
    let m = p.collect_proc_metrics(42, at(1), Some(ps), Some("h\nt1\nt2\n")).unwrap();
    assert_eq!((m.state.as_str(), m.rss_bytes, m.threads), ("S", 102400, 2));
    assert!(p.collect_proc_metrics(42, at(1), Some("PID\n"), None).is_none());
    assert!(p.collect_proc_metrics(42, at(1), None, None).is_none());
    let short = p.collect_proc_metrics(42, at(1), Some("h\n42 S 1\n"), None).unwrap();
    assert_eq!((short.state.as_str(), short.rss_bytes, short.threads), ("", 0, 0));
}

#[test]
fn macos_users_and_commands() {
    let taken: Vec<String> = (400..403).map(|n| format!("u{n}   {n}")).collect();
    assert_eq!(find_next_system_uid(&taken.join("\n")), Ok(403));
    assert_eq!(find_next_system_uid(""), Ok(400));
    let all: Vec<String> = (400..500).map(|n| format!("u {n}")).collect();
    assert_eq!(
        find_next_system_uid(&all.join("\n")),
        Err("No available system UIDs in range 400-499".to_string())
    );
    let p = MacOSLaunchd::new();
    let lines = p.create_system_user("oc", 401, "/h");
    let got: Vec<String> = lines.into_iter().map(words).collect();
    assert_eq!(
        got,
        vec![
            "sudo dscl . -create /Users/oc",
            "sudo dscl . -create /Users/oc UserShell /usr/bin/false",
            "sudo dscl . -create /Users/oc UniqueID 401",
            "sudo dscl . -create /Users/oc PrimaryGroupID 20",
            "sudo dscl . -create /Users/oc NFSHomeDirectory /h",
            "sudo dscl . -create /Users/oc RealName OuterClaw oc service",
        ]
    );
    assert_eq!(words(p.ps_command(4)), "/bin/ps -o pid,state,rss,vsz,wq -p 4");
    assert_eq!(
        words(p.restart_service("x")),
        "sudo launchctl kickstart -k system/com.outerclaw.x"
    );
    assert_eq!(words(p.stop_service("x")), "sudo launchctl kill SIGTERM system/com.outerclaw.x");
    assert_eq!(words(p.kill_service("x")), "sudo launchctl kill SIGKILL system/com.outerclaw.x");
    assert_eq!(words(p.set_immutable("/f", true)), "chflags uchg /f");
    assert_eq!(words(p.set_immutable("/f", false)), "chflags nouchg /f");
    assert_eq!(
        p.enable_service("x", true).map(words),
        Ok("sudo launchctl load -w /Library/LaunchDaemons/com.outerclaw.x.plist".to_string())
    );
    assert_eq!(
        p.enable_service("x", false).map(words),
        Err("Plist not found: /Library/LaunchDaemons/com.outerclaw.x.plist. \
             Install the service first."
            .to_string())
    );
}

// ── FreeBSD ───────────────────────────────────────────────────────────

#[test]
fn freebsd_test_platform_name() {
    let p = FreeBSDRc::new();
    assert_eq!(p.platform_name(), "freebsd-rc");
}

#[test]
fn test_service_name_stripping() {
    assert_eq!(
        FreeBSDRc::service_name("oc-outerclaw.service"),
        "oc-outerclaw"
    );
    assert_eq!(FreeBSDRc::service_name("oc-outerclaw"), "oc-outerclaw");
}

#[test]
fn freebsd_test_parse_etime() {
    assert_eq!(freebsd::parse_etime("01:23"), Some(83));
    assert_eq!(freebsd::parse_etime("1:01:23"), Some(3683));
    assert_eq!(
        freebsd::parse_etime("2-01:23:45"),
        Some(2 * 86400 + 3600 + 23 * 60 + 45)
    );
    assert_eq!(freebsd::parse_etime(""), None);
    assert_eq!(freebsd::parse_etime("-"), None);
}

#[test]
fn freebsd_test_io_pressure_none() {
    let p = FreeBSDRc::new();
    assert_eq!(p.io_pressure_avg10(), None);
}

#[test]
fn freebsd_test_notify_noop() {
    let p = FreeBSDRc::new();
    assert!(p.notify_ready().is_ok());
    assert!(p.notify_watchdog().is_ok());
    assert!(p.notify_stopping().is_ok());
}

#[test]
fn odd_elapsed_times() {
    assert_eq!(parse_etime(" 00:05 \n"), Some(5));
    assert_eq!(parse_etime("5"), None);
    assert_eq!(parse_etime("1:2:3:4"), None);
    assert_eq!(parse_etime("x-01:02"), None);
    assert_eq!(parse_etime("1-2-3:4"), None);
    assert!(is_etime_in_range("1-00:00:00"));
    assert!(!is_etime_in_range("18446744073709551615-00:00"));
}

#[test]
fn rc_services_are_read() {
    let p = FreeBSDRc::new();
    assert_eq!(p.find_service_pid("oc is running as pid 12345.\n"), Some(12345));
    assert_eq!(p.find_service_pid("12 lines\nno such thing\n"), None);
    assert_eq!(p.find_service_pid("pid 0 pid 8\n"), Some(8));
    assert_eq!(FreeBSDRc::pid_file("oc"), "/var/run/oc.pid");
    assert_eq!(FreeBSDRc::pid_in_file(" 9\n"), Some(9));
    assert_eq!(FreeBSDRc::pid_in_file("x"), None);
    assert_eq!(p.service_state(&ran(0, "", "")), ServiceActive::Active);
    assert_eq!(p.service_state(&ran(1, "oc is not running.", "")), ServiceActive::Inactive);
    assert_eq!(p.service_state(&ran(1, "", "")), ServiceActive::Failed);
    assert_eq!(p.service_state(&ran(2, "", "oc does not exist")), ServiceActive::Unknown);
    assert_eq!(p.service_state(&ran(2, "", "unknown directive")), ServiceActive::Unknown);
    assert_eq!(p.service_state(&ran(2, "", "")), ServiceActive::Inactive);
}

#[test]
fn freebsd_metrics() {
    let p = FreeBSDRc::new();
    let o = ProcOutputs {
        usage: Some("PID COMM A RSS\n42 node x 10\n"),
        status: None,
        ps: Some("PID STAT RSS VSZ\n42 I 7 8\n"),
        threads: Some("h\na\nb\nc\n"),
        ps_threads: None,
        files: Some("h\n1\n"),
    };
    assert!(is_usage_fitting(o.usage, o.status, o.ps));
    let m = p.collect_proc_metrics(42, at(1), o).unwrap();
    assert_eq!((m.state.as_str(), m.rss_bytes, m.threads, m.fd_count), ("I", 40960, 3, 1));
    let fallback = ProcOutputs {
        usage: None,
        status: Some("node 42 1 1 1 x y 3"),
        ps: Some("PID STAT RSS VSZ\n42 I 7 8\n"),
        threads: None,
        ps_threads: Some("h\n"),
        files: None,
    };
    let m = p.collect_proc_metrics(42, at(1), fallback).unwrap();
    assert_eq!((m.rss_bytes, m.threads, m.fd_count), (12288, 1, 0));
    let only_ps = ProcOutputs {
        usage: None,
        status: None,
        ps: Some("PID STAT RSS VSZ\n42 I 7 8\n"),
        threads: None,
        ps_threads: None,
        files: None,
    };
    let m = p.collect_proc_metrics(42, at(1), only_ps).unwrap();
    assert_eq!((m.rss_bytes, m.threads), (7168, 0));
    let gone = ProcOutputs {
        usage: None,
        status: None,
        ps: None,
        threads: None,
        ps_threads: None,
        files: None,
    };
    assert!(p.collect_proc_metrics(42, at(1), gone).is_none());
}

#[test]
fn freebsd_commands() {
    let p = FreeBSDRc::new();
    assert_eq!(words(p.run_service_cmd("oc", "status")), "service oc status");
    assert_eq!(words(p.sudo_service("oc", "stop")), "sudo service oc stop");
    assert_eq!(
        FreeBSDRc::service_result("oc", "stop", &ran(1, "", "e")),
        Err("sudo service oc stop failed (exit 1): e".to_string())
    );
    assert_eq!(p.kill_service("oc.service", Some(5)).map(words), Ok("sudo kill -9 5".to_string()));
    assert_eq!(
        p.kill_service("oc.service", None).map(words),
        Err("Cannot find PID for service oc to kill".to_string())
    );
    assert_eq!(words(p.set_immutable("/f", true)), "chflags schg /f");
    assert_eq!(words(p.set_immutable("/f", false)), "chflags noschg /f");
    assert_eq!(words(p.sysrc("oc.service", true)), "sudo sysrc oc_enable=YES");
    assert_eq!(words(p.sysrc("oc", false)), "sudo sysrc oc_enable=NO");
    assert_eq!(FreeBSDRc::rc_path("oc.service"), "/usr/local/etc/rc.d/oc");
    assert_eq!(
        words(p.create_system_user("oc", "/h")),
        "sudo pw useradd oc -d /h -s /usr/sbin/nologin -m -c OuterClaw oc service"
    );
    assert!(FreeBSDRc::user_created("oc", &ran(65, "", "login name already exists")).is_ok());
    assert!(FreeBSDRc::user_created("oc", &ran(65, "", "no")).is_err());
    assert!(FreeBSDRc::user_deleted("oc", &ran(67, "", "no such user")).is_ok());
    assert!(FreeBSDRc::user_deleted("oc", &ran(1, "", "no")).is_err());
}
