use mew::system::{
    cpu_deltas, disk_usage, first_line, first_version_token, format_uptime, meminfo_usage,
    os_icon, os_name_linux, os_name_other, os_release_name, probe_line, rustc_version_from,
    select_disk_usage, shell_info_unix, shell_info_windows, stat_cpu_times, toolchain_step,
    DiskInfo, Overflow, ProbeMode, ProbeOutcome, ToolchainStep,
};

#[test]
fn stat_reads_idle_and_total() {
    let s = "cpu  100 20 30 400 50 0 0 0 0 0\ncpu0 1 2 3 4\n";
    assert_eq!(stat_cpu_times(s), Ok(Some((450, 600))));
    assert_eq!(stat_cpu_times("cpu 1 2 3 4"), Ok(Some((4, 10))));
    assert_eq!(stat_cpu_times("cpu 1 x 2 3 4"), Ok(Some((4, 10))));
}

#[test]
fn stat_without_cpu_line() {
    assert_eq!(stat_cpu_times(""), Ok(None));
    assert_eq!(stat_cpu_times("cpu0 1 2 3 4"), Ok(None));
    assert_eq!(stat_cpu_times("intr 1 2 3 4\ncpu 1 2 3 4"), Ok(None));
    assert_eq!(stat_cpu_times("cpu 1 2 3"), Ok(None));
}

#[test]
fn stat_overflow() {
    assert_eq!(stat_cpu_times("cpu 18446744073709551615 1 0 0"), Err(Overflow));
}

#[test]
fn cpu_deltas_between_readings() {
    assert_eq!(cpu_deltas((450, 600), (460, 700)), Some((90, 100)));
    assert_eq!(cpu_deltas((450, 600), (460, 600)), None);
    assert_eq!(cpu_deltas((500, 600), (450, 700)), Some((100, 100)));
    assert_eq!(cpu_deltas((0, 600), (500, 700)), Some((0, 100)));
    assert_eq!(cpu_deltas((0, 700), (0, 600)), None);
}

#[test]
fn meminfo_used_and_total() {
    let m = "MemTotal:       16000000 kB\nMemFree:         1000 kB\nMemAvailable:    4000000 kB\n";
    assert_eq!(meminfo_usage(m), Some((12000000, 16000000)));
    assert_eq!(meminfo_usage("MemTotal: 10 kB\nMemFree: 3 kB\n"), None);
    assert_eq!(meminfo_usage("MemTotal: 0 kB\nMemAvailable: 0 kB\n"), None);
    assert_eq!(meminfo_usage("MemTotal: 10 kB\nMemAvailable: 40 kB\n"), Some((0, 10)));
}

#[test]
fn meminfo_stops_once_both_are_known() {
    assert_eq!(meminfo_usage("MemTotal: 10 kB\nMemAvailable: 4 kB\nMemTotal: 99 kB\n"), Some((6, 10)));
    assert_eq!(meminfo_usage("MemTotal: 10 kB\nMemTotal: 20 kB\nMemAvailable: 5 kB\n"), Some((15, 20)));
    assert_eq!(meminfo_usage("MemTotal: x kB\nMemAvailable: 5 kB\n"), None);
}

#[test]
fn disk_usage_from_statvfs() {
    assert_eq!(disk_usage(1000, 250, 4096), Ok(Some((3072000, 4096000))));
    assert_eq!(disk_usage(0, 0, 4096), Ok(None));
    assert_eq!(disk_usage(10, 20, 1), Ok(Some((0, 10))));
    assert_eq!(disk_usage(u64::MAX, 0, 2), Err(Overflow));
    assert_eq!(disk_usage(1, u64::MAX, 2), Err(Overflow));
}

fn disk(contains_cwd: bool, mount_len: usize, total: u64, available: u64) -> DiskInfo {
    DiskInfo { contains_cwd, mount_len, total, available }
}

#[test]
fn disk_choice() {
    let d = vec![disk(true, 1, 100, 40), disk(true, 5, 50, 10), disk(false, 8, 500, 0)];
    assert_eq!(select_disk_usage(&d), Some((40, 50)));
    let d = vec![disk(false, 1, 100, 10), disk(false, 5, 100, 50), disk(false, 8, 20, 0)];
    assert_eq!(select_disk_usage(&d), Some((90, 100)));
    let d = vec![disk(true, 3, 100, 10), disk(true, 3, 80, 50)];
    assert_eq!(select_disk_usage(&d), Some((30, 80)));
    let d = vec![disk(true, 3, 0, 0), disk(false, 1, 500, 0)];
    assert_eq!(select_disk_usage(&d), None);
    assert_eq!(select_disk_usage(&Vec::new()), None);
}

#[test]
fn uptime_text() {
    assert_eq!(format_uptime(0), "0m");
    assert_eq!(format_uptime(59), "0m");
    assert_eq!(format_uptime(3600), "1h 0m");
    assert_eq!(format_uptime(3725), "1h 2m");
    assert_eq!(format_uptime(86400), "1d 0h 0m");
    assert_eq!(format_uptime(90061), "1d 1h 1m");
    assert_eq!(format_uptime(10 * 86400 + 23 * 3600 + 59 * 60 + 59), "10d 23h 59m");
}

#[test]
fn os_release_names() {
    let c = "NAME=\"Arch Linux\"\nPRETTY_NAME=\"Arch Linux\"\nID=arch\n";
    assert_eq!(os_release_name(c).as_deref(), Some("arch linux"));
    assert_eq!(os_release_name("NAME=Ubuntu\nID=ubuntu\n").as_deref(), Some("ubuntu"));
    assert_eq!(os_release_name("PRETTY_NAME=\"\"\n").as_deref(), Some(""));
    assert_eq!(os_release_name("ID=x\n"), None);
    assert_eq!(os_release_name("PRETTY_NAME=PRETTY_NAME=\"Fedora\"").as_deref(), Some("fedora"));
    assert_eq!(os_release_name("NAME=\u{c0}B\n").as_deref(), Some("\u{e0}b"));
    assert_eq!(os_release_name("NAME=\"\"x\"\"").as_deref(), Some("x"));
}

#[test]
fn os_name_fallbacks() {
    assert_eq!(os_name_linux(Some("NAME=Debian\n".into()), Some("x".into()), "linux"), "debian");
    assert_eq!(os_name_linux(Some("ID=x\n".into()), Some("Linux 6.1 Arch".into()), "linux"), "linux 6.1 arch");
    assert_eq!(os_name_linux(None, Some("   ".into()), "linux"), "linux");
    assert_eq!(os_name_linux(None, None, "Linux"), "linux");
    assert_eq!(os_name_other(None, Some("Darwin".into()), Some("14.1".into()), "macos"), "darwin 14.1");
    assert_eq!(os_name_other(None, Some("Darwin".into()), Some(" ".into()), "macos"), "darwin");
    assert_eq!(os_name_other(None, Some(" ".into()), None, "macos"), "macos");
    assert_eq!(os_name_other(Some("Windows 11 Pro".into()), None, None, "windows"), "windows 11 pro");
    assert_eq!(os_name_other(None, None, None, "windows"), "windows");
}

#[test]
fn os_icons() {
    assert_eq!(os_icon("arch linux"), "\u{f303}");
    assert_eq!(os_icon("cachyos"), "\u{f303}");
    assert_eq!(os_icon("ubuntu 24.04 lts"), "\u{f31b}");
    assert_eq!(os_icon("fedora linux 40"), "\u{f30a}");
    assert_eq!(os_icon("debian gnu/linux 12"), "\u{f306}");
    assert_eq!(os_icon("nixos 24.05"), "\u{f313}");
    assert_eq!(os_icon("darwin 14.1"), "\u{f179}");
    assert_eq!(os_icon("macos 14"), "\u{f179}");
    assert_eq!(os_icon("windows 11 pro"), "\u{f17a}");
    assert_eq!(os_icon("gentoo"), "\u{e712}");
}

#[test]
fn unix_shell_info() {
    let (s, t) = shell_info_unix(Some("/usr/bin/Zsh".into()), Some("WezTerm".into()), None, Some("xterm".into()));
    assert_eq!((s.as_str(), t.as_str()), ("zsh", "wezterm"));
    let (s, t) = shell_info_unix(None, Some("  ".into()), Some("Alacritty".into()), Some("xterm".into()));
    assert_eq!((s.as_str(), t.as_str()), ("\u{2014}", "alacritty"));
    let (s, t) = shell_info_unix(Some("/bin/".into()), None, None, None);
    assert_eq!((s.as_str(), t.as_str()), ("", "\u{2014}"));
    let (_, t) = shell_info_unix(Some("fish".into()), None, None, Some("XTERM-256COLOR".into()));
    assert_eq!(t, "xterm-256color");
}

#[test]
fn windows_shell_info() {
    let (s, t) = shell_info_windows(
        Some("C:\\Program Files\\Git\\bin\\bash.exe".into()),
        Some("C:\\Windows\\system32\\cmd.exe".into()),
        None,
        Some("abc".into()),
        None,
        None,
    );
    assert_eq!((s.as_str(), t.as_str()), ("bash", "windows terminal"));
    let (s, t) = shell_info_windows(None, Some("C:\\Windows\\system32\\CMD.exe".into()), None, None, None, Some("xterm".into()));
    assert_eq!((s.as_str(), t.as_str()), ("cmd", "xterm"));
    let (s, t) = shell_info_windows(Some("  ".into()), None, Some("vscode".into()), Some("x".into()), None, None);
    assert_eq!((s.as_str(), t.as_str()), ("\u{2014}", "vscode"));
}

#[test]
fn rustc_versions() {
    assert_eq!(rustc_version_from("rustc 1.85.0 (4d91de4e4 2025-02-17)\n").as_deref(), Some("rustc 1.85.0"));
    assert_eq!(rustc_version_from("rustc 1.86.0-nightly (abc 2025-01-01)").as_deref(), Some("rustc 1.86.0"));
    assert_eq!(rustc_version_from("rustc"), None);
    assert_eq!(rustc_version_from("rustc nightly"), None);
}

#[test]
fn version_tokens() {
    assert_eq!(first_version_token("go version go1.22.1 linux/amd64").as_deref(), Some("1.22.1"));
    assert_eq!(
        first_version_token("GNU bash, version 5.2.21(1)-release (x86_64-pc-linux-gnu)").as_deref(),
        Some("5.2.21")
    );
    assert_eq!(first_version_token("v20.11.0").as_deref(), Some("20.11.0"));
    assert_eq!(first_version_token("Python 3.12.1").as_deref(), Some("3.12.1"));
    assert_eq!(first_version_token("VERSION 1.2").as_deref(), Some("1.2"));
    assert_eq!(first_version_token("abc 7 1."), Some("1.".to_string()));
    assert_eq!(first_version_token("abc 7"), None);
    assert_eq!(first_version_token(""), None);
}

#[test]
fn probe_lines() {
    assert_eq!(probe_line("", "java 21\nmore").as_deref(), Some("java 21"));
    assert_eq!(probe_line("  Python 3.1  \n", "x").as_deref(), Some("Python 3.1"));
    assert_eq!(probe_line("\n", "java"), None);
    assert_eq!(probe_line("", ""), None);
    assert_eq!(first_line("  x  \ny").as_deref(), Some("x"));
    assert_eq!(first_line(""), None);
    assert_eq!(first_line("\n").as_deref(), Some(""));
}

fn run_of(step: ToolchainStep) -> (String, Vec<String>, ProbeMode) {
    match step {
        ToolchainStep::Run(p) => (p.cmd, p.args, p.mode),
        ToolchainStep::Done(d) => panic!("expected a probe, got {:?}", d),
    }
}

fn line(text: &str) -> ProbeOutcome {
    ProbeOutcome::Line(text.to_string())
}

fn done_of(step: ToolchainStep) -> Option<String> {
    match step {
        ToolchainStep::Done(d) => d,
        ToolchainStep::Run(p) => panic!("expected an answer, got a probe of {}", p.cmd),
    }
}

#[test]
fn toolchain_rust() {
    let (cmd, args, mode) = run_of(toolchain_step("Rust", false, &None, &None, &vec![]));
    assert_eq!((cmd.as_str(), args, mode), ("rustc", vec!["--version".to_string()], ProbeMode::FirstLine));
    let answer = done_of(toolchain_step("rust", false, &None, &None, &vec![line("rustc 1.85.0 (abc 2025-02-17)")]));
    assert_eq!(answer.as_deref(), Some("rustc 1.85.0"));
    assert_eq!(done_of(toolchain_step("RUST", false, &None, &None, &vec![ProbeOutcome::NoLine])), None);
}

#[test]
fn toolchain_python_fallback() {
    let (cmd, _, _) = run_of(toolchain_step("python", false, &None, &None, &vec![]));
    assert_eq!(cmd, "python3");
    let (cmd, _, _) = run_of(toolchain_step("python", false, &None, &None, &vec![ProbeOutcome::NotStarted]));
    assert_eq!(cmd, "python");
    let a = done_of(toolchain_step(
        "python",
        false,
        &None,
        &None,
        &vec![ProbeOutcome::NotStarted, line("Python 3.12.1")],
    ));
    assert_eq!(a.as_deref(), Some("python 3.12.1"));
    let a = done_of(toolchain_step("Python", false, &None, &None, &vec![line("Python 3.11.4")]));
    assert_eq!(a.as_deref(), Some("python 3.11.4"));
    let none_started = vec![ProbeOutcome::NotStarted, ProbeOutcome::NotStarted];
    assert_eq!(done_of(toolchain_step("python", false, &None, &None, &none_started)), None);
}

#[test]
fn toolchain_no_second_process_after_a_failed_run() {
    // python3 ran but failed: python is not tried
    assert_eq!(done_of(toolchain_step("python", false, &None, &None, &vec![ProbeOutcome::NoLine])), None);
    // cc ran but printed nothing: gcc, clang and cl are not tried
    assert_eq!(done_of(toolchain_step("c", false, &None, &None, &vec![ProbeOutcome::NoLine])), None);
    assert_eq!(done_of(toolchain_step("c++", false, &None, &None, &vec![ProbeOutcome::NoLine])), None);
    // gcc was not found, clang ran and failed: cl is not tried
    let answers = vec![ProbeOutcome::NotStarted, ProbeOutcome::NoLine];
    assert_eq!(done_of(toolchain_step("c", false, &None, &None, &answers)), None);
    // a bash found through SHELL on windows ran and failed: bash.EXE is not tried
    let bash = Some("C:/tools/bash.EXE".to_string());
    assert_eq!(done_of(toolchain_step("shell", true, &bash, &None, &vec![ProbeOutcome::NoLine])), None);
}

#[test]
fn toolchain_c_vendor() {
    let mut answers = vec![];
    for expected in ["cc", "gcc", "clang", "cl"] {
        let (cmd, _, _) = run_of(toolchain_step("c", false, &None, &None, &answers));
        assert_eq!(cmd, expected);
        answers.push(ProbeOutcome::NotStarted);
    }
    assert_eq!(done_of(toolchain_step("c", false, &None, &None, &answers)), None);
    let a = done_of(toolchain_step(
        "c",
        false,
        &None,
        &None,
        &vec![ProbeOutcome::NotStarted, ProbeOutcome::NotStarted, line("Ubuntu clang version 17.0.6")],
    ));
    assert_eq!(a.as_deref(), Some("clang 17.0.6"));
    let a = done_of(toolchain_step("c", false, &None, &None, &vec![line("cc (GCC) 13.2.1 20230801")]));
    assert_eq!(a.as_deref(), Some("cc 13.2.1"));
    let a = done_of(toolchain_step("c++", false, &None, &None, &vec![line("clang version 17.0.6")]));
    assert_eq!(a.as_deref(), Some("clang++ 17.0.6"));
    let (cmd, _, _) = run_of(toolchain_step("c++", false, &None, &None, &vec![ProbeOutcome::NotStarted]));
    assert_eq!(cmd, "g++");
    let a = done_of(toolchain_step("java", false, &None, &None, &vec![line("openjdk 21.0.2 2024-01-16")]));
    assert_eq!(a.as_deref(), Some("openjdk 21.0.2"));
    let a = done_of(toolchain_step("java", false, &None, &None, &vec![line("java 21.0.2 2024-01-16 LTS")]));
    assert_eq!(a.as_deref(), Some("java 21.0.2"));
}

#[test]
fn toolchain_other_languages() {
    let a = done_of(toolchain_step("go", false, &None, &None, &vec![line("go version go1.22.1 linux/amd64")]));
    assert_eq!(a.as_deref(), Some("go 1.22.1"));
    let a = done_of(toolchain_step("TypeScript", false, &None, &None, &vec![line("v20.11.0")]));
    assert_eq!(a.as_deref(), Some("node 20.11.0"));
    let (cmd, args, _) = run_of(toolchain_step("zig", false, &None, &None, &vec![]));
    assert_eq!((cmd.as_str(), args), ("zig", vec!["version".to_string()]));
    let (cmd, args, _) = run_of(toolchain_step("lua", false, &None, &None, &vec![]));
    assert_eq!((cmd.as_str(), args), ("lua", vec!["-v".to_string()]));
    let (cmd, _, _) = run_of(toolchain_step("haskell", false, &None, &None, &vec![]));
    assert_eq!(cmd, "ghc");
    assert_eq!(done_of(toolchain_step("kotlin", false, &None, &None, &vec![])), None);
    assert_eq!(done_of(toolchain_step("cobol", false, &None, &None, &vec![])), None);
    assert_eq!(done_of(toolchain_step("rust", false, &None, &None, &vec![line("rustc nightly")])), None);
    assert_eq!(done_of(toolchain_step("go", false, &None, &None, &vec![ProbeOutcome::NotStarted])), None);
}

#[test]
fn toolchain_unix_shell() {
    let shell = Some("/bin/Bash".to_string());
    let (cmd, args, _) = run_of(toolchain_step("shell", false, &shell, &None, &vec![]));
    assert_eq!((cmd.as_str(), args), ("Bash", vec!["--version".to_string()]));
    let a = done_of(toolchain_step(
        "shell",
        false,
        &shell,
        &None,
        &vec![line("GNU bash, version 5.2.21(1)-release (x86_64-pc-linux-gnu)")],
    ));
    assert_eq!(a.as_deref(), Some("bash 5.2.21"));
    assert_eq!(done_of(toolchain_step("shell", false, &None, &None, &vec![])), None);
    assert_eq!(done_of(toolchain_step("shell", false, &Some("/bin/".into()), &None, &vec![])), None);
}

#[test]
fn toolchain_windows_shell() {
    let comspec = Some("C:\\Windows\\System32\\cmd.exe".to_string());
    let (cmd, args, mode) = run_of(toolchain_step("shell", true, &None, &comspec, &vec![]));
    assert_eq!(cmd, "cmd.exe");
    assert_eq!(args, vec!["/c".to_string(), "ver".to_string()]);
    assert_eq!(mode, ProbeMode::AnyStatusLine);
    let a = done_of(toolchain_step(
        "shell",
        true,
        &None,
        &comspec,
        &vec![line("Microsoft Windows [Version 10.0.22631.4317]")],
    ));
    assert_eq!(a.as_deref(), Some("cmd 10.0.22631.4317"));
    let ps = Some("powershell.exe".to_string());
    let (cmd, args, mode) = run_of(toolchain_step("shell", true, &ps, &None, &vec![]));
    assert_eq!(cmd, "powershell.exe");
    assert_eq!(args.len(), 3);
    assert_eq!(args[2], "$PSVersionTable.PSVersion.ToString()");
    assert_eq!(mode, ProbeMode::StdoutLine);
    let bash = Some("C:/tools/bash.EXE".to_string());
    let (cmd, _, _) = run_of(toolchain_step("shell", true, &bash, &None, &vec![]));
    assert_eq!(cmd, "bash");
    let (cmd, _, _) = run_of(toolchain_step("shell", true, &bash, &None, &vec![ProbeOutcome::NotStarted]));
    assert_eq!(cmd, "bash.EXE");
    let none_started = vec![ProbeOutcome::NotStarted, ProbeOutcome::NotStarted];
    assert_eq!(done_of(toolchain_step("shell", true, &bash, &None, &none_started)), None);
}

#[test]
fn toolchain_probes_at_most_four() {
    for lang in ["c", "c++", "python", "rust", "shell", "go"] {
        let answers = vec![
            ProbeOutcome::NotStarted,
            ProbeOutcome::NotStarted,
            ProbeOutcome::NotStarted,
            ProbeOutcome::NotStarted,
        ];
        assert!(matches!(toolchain_step(lang, false, &Some("/bin/sh".into()), &None, &answers), ToolchainStep::Done(None)));
    }
}

#[test]
fn toolchain_stops_once_a_probe_ran() {
    for lang in ["c", "c++", "python", "rust", "shell", "go"] {
        for ran in [ProbeOutcome::NoLine, line("no version here")] {
            let answers = vec![ran];
            assert!(matches!(toolchain_step(lang, false, &Some("/bin/sh".into()), &None, &answers), ToolchainStep::Done(None)));
        }
    }
}

#[test]
fn toolchain_step_ignores_case() {
    for (mixed, low) in [("PyThOn", "python"), ("C++", "c++"), ("TypeScript", "typescript"), ("SHELL", "shell")] {
        let shell = Some("/usr/bin/zsh".to_string());
        let (a, _, _) = run_of(toolchain_step(mixed, false, &shell, &None, &vec![]));
        let (b, _, _) = run_of(toolchain_step(low, false, &shell, &None, &vec![]));
        assert_eq!(a, b);
        let answers = vec![line("tool version 1.2.3")];
        assert_eq!(
            done_of(toolchain_step(mixed, false, &shell, &None, &answers)),
            done_of(toolchain_step(low, false, &shell, &None, &answers))
        );
    }
}
