use wezterm_parallel::monitoring::readings::{
    cpu_times, extract_process_name, get_process_workspace, meminfo_memory, memory_from_line,
    network_totals, pages_from_line, parse_ps_line, rss_bytes, thread_count, vm_stat_memory,
    CpuTimes,
};
use wezterm_parallel::tokens::{split_lines, split_words, trim_str};

#[test]
fn words_split_on_any_white_space() {
    assert_eq!(split_words("  a\tbc \u{3000} d\n"), vec!["a", "bc", "d"]);
    assert!(split_words(" \t ").is_empty());
    assert_eq!(split_words("x"), vec!["x"]);
}

#[test]
fn lines_drop_line_endings() {
    assert_eq!(split_lines("a\r\nb\nc"), vec!["a", "b", "c"]);
    assert_eq!(split_lines("a\n\n"), vec!["a", ""]);
    assert_eq!(split_lines("a\r"), vec!["a\r"]);
    assert!(split_lines("").is_empty());
    assert_eq!(split_lines("\n"), vec![""]);
}

#[test]
fn trim_both_ends() {
    assert_eq!(trim_str("  12345. \n"), "12345.");
    assert_eq!(trim_str("   "), "");
}

#[test]
fn meminfo_used_and_available() {
    let text = "MemTotal:        2048 kB\nMemFree:          100 kB\nMemAvailable:     512 kB\n";
    assert_eq!(meminfo_memory(text), Some(((2048 - 512) * 1024, 512 * 1024)));
    assert_eq!(memory_from_line("MemTotal:"), Some(0));
    assert_eq!(memory_from_line("MemTotal: abc kB"), None);
    assert_eq!(meminfo_memory("MemTotal: x kB\n"), None);
    assert_eq!(meminfo_memory("Other: 5 kB"), Some((0, 0)));
}

#[test]
fn resident_memory_of_a_process() {
    let status = "Name:\tdemo\nVmRSS:\t  1500 kB\nVmRSS: 9 kB\n";
    assert_eq!(rss_bytes(status), Some(1500 * 1024));
    assert_eq!(rss_bytes("Name: demo\n"), Some(0));
    assert_eq!(rss_bytes("VmRSS:\nVmRSS: 3 kB"), Some(3 * 1024));
    assert_eq!(rss_bytes("VmRSS: lots kB"), None);
}

#[test]
fn threads_from_stat() {
    let mut fields: Vec<String> = (0..25).map(|i| i.to_string()).collect();
    fields[19] = "7".to_string();
    assert_eq!(thread_count(&fields.join(" ")), 7);
    fields[19] = "seven".to_string();
    assert_eq!(thread_count(&fields.join(" ")), 1);
    assert_eq!(thread_count("1 2 3"), 1);
}

#[test]
fn vm_stat_pages() {
    assert_eq!(pages_from_line("Pages free:                               12345."), 12345);
    assert_eq!(pages_from_line("no colon here"), 0);
    assert_eq!(pages_from_line("Pages free: many."), 0);
    let output = "Mach Virtual Memory Statistics: (page size of 16384 bytes)\n\
                  Pages free:                               10.\n\
                  Pages active:                             20.\n\
                  Pages inactive:                           30.\n\
                  Pages wired down:                         40.\n";
    assert_eq!(vm_stat_memory(output), ((20 + 30 + 40) * 16384, 10 * 16384));
    assert_eq!(vm_stat_memory("Pages free: 2."), (0, 2 * 4096));
}

#[test]
fn network_counters_skip_headers_and_loopback() {
    let text = "Inter-|   Receive\n face |bytes packets\n\
                lo: 100 1 0 0 0 0 0 0 100 1 0 0 0 0 0 0\n\
                eth0: 1000 10 0 0 0 0 0 0 2000 20 0 0 0 0 0 0\n\
                wlan0: 1 2 0 0 0 0 0 0 3 4 0 0 0 0 0 0\n";
    let io = network_totals(text);
    assert_eq!(io.bytes_received, 1001);
    assert_eq!(io.packets_received, 12);
    assert_eq!(io.bytes_sent, 2003);
    assert_eq!(io.packets_sent, 24);
    let short = network_totals("h1\nh2\neth0: 1 2 3\n");
    assert_eq!(short.bytes_received, 0);
}

#[test]
fn process_names_and_workspaces() {
    assert_eq!(extract_process_name("/usr/bin/wezterm-parallel --serve"), "wezterm-parallel");
    assert_eq!(extract_process_name("cargo build"), "cargo");
    assert_eq!(extract_process_name("   "), "unknown");
    assert_eq!(extract_process_name("/usr/bin/"), "unknown");
    assert_eq!(get_process_workspace("frontend-dev-1"), "frontend");
    assert_eq!(get_process_workspace("solo"), "default");
}

#[test]
fn ps_lines() {
    let line = "user 4242 1.5 2.0 1000 2000 pts/0 S 10:00 0:01 /opt/bin/wezterm-parallel --port 80";
    let entry = parse_ps_line(line).expect("entry");
    assert_eq!(entry.pid, 4242);
    assert_eq!(entry.name, "wezterm-parallel");
    assert_eq!(entry.command, "/opt/bin/wezterm-parallel --port 80");
    assert_eq!(entry.cpu_field, "1.5");
    assert_eq!(entry.mem_field, "2.0");
    assert!(parse_ps_line("user pid 1.5 2.0 1000 2000 pts/0 S 10:00 0:01 cmd").is_none());
    assert!(parse_ps_line("too few words").is_none());
}

#[test]
fn cpu_times_from_stat() {
    assert_eq!(
        cpu_times("cpu  10 20 30 40 50 60 70 80\ncpu0 1 2 3 4 5 6 7\n"),
        CpuTimes::Counted { total: 280, idle: 40 }
    );
    assert_eq!(cpu_times("cpu 1 2 x 4 5 6 7"), CpuTimes::Malformed);
    assert_eq!(cpu_times("intr 1 2 3 4 5 6 7"), CpuTimes::Missing);
    assert_eq!(cpu_times("cpu 1 2 3"), CpuTimes::Missing);
    assert_eq!(cpu_times(""), CpuTimes::Missing);
}

use wezterm_parallel::text::{parse_u32, parse_u64, str_less};
use wezterm_parallel::tokens::{find_char, rfind_char, strip_end_str};

fn samples() -> Vec<&'static str> {
    vec![
        "", " ", "a", " a ", "a b", "a\tb\nc", "\r\n", "x\r\ny\r\n", "x\ny\n\n", "\u{85}a\u{a0}b\u{2003}",
        "lo: 1 2", "a\r", "\n\nz", "  lead", "trail  ", "+5", "-5", "0042", "18446744073709551615",
        "18446744073709551616", "4294967296", "12.", "..", "é ü", "a:b:c", "/x/y z",
    ]
}

#[test]
fn text_helpers_agree_with_std() {
    for s in samples() {
        let words: Vec<String> = s.split_whitespace().map(|w| w.to_string()).collect();
        assert_eq!(split_words(s), words, "words of {:?}", s);
        let lines: Vec<String> = s.lines().map(|l| l.to_string()).collect();
        assert_eq!(split_lines(s), lines, "lines of {:?}", s);
        assert_eq!(trim_str(s), s.trim(), "trim of {:?}", s);
        assert_eq!(strip_end_str(s, '.'), s.trim_end_matches('.'), "dots of {:?}", s);
        assert_eq!(parse_u64(s), s.parse::<u64>().ok(), "u64 of {:?}", s);
        assert_eq!(parse_u32(s), s.parse::<u32>().ok(), "u32 of {:?}", s);
        let chars: Vec<char> = s.chars().collect();
        assert_eq!(find_char(s, ':'), chars.iter().position(|c| *c == ':'), "colon in {:?}", s);
        assert_eq!(rfind_char(s, '/'), chars.iter().rposition(|c| *c == '/'), "slash in {:?}", s);
        for t in samples() {
            assert_eq!(str_less(s, t), s < t, "{:?} < {:?}", s, t);
        }
    }
}
