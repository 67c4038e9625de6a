use proxy_pulse::memory::{
    fmt_bytes, jemalloc_line, log_memory_stats, monitor_tick, os_memory_line, parse_proc_status,
    proc_status_fits, JemallocStats, ProcMemInfo,
};

fn float_reference(b: usize) -> String {
    const MB: usize = 1024 * 1024;
    if b >= MB {
        format!("{:.1} MB", b as f64 / MB as f64)
    } else {
        format!("{:.1} KB", b as f64 / 1024.0)
    }
}

#[test]
fn fmt_bytes_known_values() {
    assert_eq!(fmt_bytes(0), "0.0 KB");
    assert_eq!(fmt_bytes(1024), "1.0 KB");
    assert_eq!(fmt_bytes(1536), "1.5 KB");
    assert_eq!(fmt_bytes(1048576), "1.0 MB");
    assert_eq!(fmt_bytes(3 * 1048576 + 524288), "3.5 MB");
}

#[test]
fn fmt_bytes_matches_float_formatting() {
    let mut values: Vec<usize> = vec![
        0, 1, 51, 52, 102, 103, 256, 768, 1023, 1024, 1025, 10240, 262144, 1048575, 1048576,
        1048577, 1310720, 1835008, 5 * 1048576 / 2, 123456789, 987654321012, usize::MAX,
        usize::MAX - 1, (1usize << 53) + 1, (1usize << 53) + 3, (1usize << 60) + 12345,
    ];
    for k in 0..2000usize {
        values.push(k * 37);
        values.push(1048576 + k * 104857);
        values.push((k + 1) * 262144);
    }
    for b in values {
        assert_eq!(fmt_bytes(b), float_reference(b), "byte count {}", b);
    }
}

#[test]
fn proc_status_fields_are_read_in_bytes() {
    let text = "Name:\tproxy-pulse\nVmHWM:\t  2048 kB\nVmRSS:\t  1024 kB\nVmSize:\t 4096 kB\n\
                RssAnon:\t 512 kB\nRssFile:\t 256 kB\nRssShmem:\t 0 kB\nThreads:\t8\n";
    assert!(proc_status_fits(text));
    let info = parse_proc_status(text).expect("figures");
    assert_eq!(info.vm_rss, 1024 * 1024);
    assert_eq!(info.vm_hwm, 2048 * 1024);
    assert_eq!(info.vm_size, 4096 * 1024);
    assert_eq!(info.rss_anon, 512 * 1024);
    assert_eq!(info.rss_file, 256 * 1024);
    assert_eq!(info.rss_shmem, 0);
}

#[test]
fn proc_status_edge_cases() {
    // The last line of a key wins; unreadable numbers count as 0.
    let info = parse_proc_status("VmRSS: 1 kB\nVmRSS: 3\r\nVmHWM: lots\nVmSize:").unwrap();
    assert_eq!(info.vm_rss, 3 * 1024);
    assert_eq!(info.vm_hwm, 0);
    assert_eq!(info.vm_size, 0);
    // A line without a word stops the reading.
    assert!(parse_proc_status("VmRSS: 1 kB\n\nVmHWM: 2 kB\n").is_none());
    assert!(parse_proc_status("VmRSS: 1 kB\n   \n").is_none());
    // Empty text: every figure is 0.
    let empty = parse_proc_status("").unwrap();
    assert_eq!(empty.vm_rss, 0);
    // A size whose byte count does not fit is refused before reading.
    let huge = format!("VmRSS: {}\n", usize::MAX);
    assert!(!proc_status_fits(&huge));
    assert!(proc_status_fits(&format!("\nVmRSS: {}\n", usize::MAX)));
}

#[test]
fn memory_report_lines() {
    let pm = ProcMemInfo {
        vm_rss: 1048576,
        vm_hwm: 2097152,
        vm_size: 3145728,
        rss_anon: 524288,
        rss_file: 1536,
        rss_shmem: 0,
    };
    let os = os_memory_line(&pm);
    assert_eq!(
        os,
        "OS [ RSS: 1.0 MB (anon: 512.0 KB + file: 1.5 KB + shmem: 0.0 KB) | HWM: 2.0 MB | VMSize: 3.0 MB ]"
    );
    let je = JemallocStats {
        allocated: 1024,
        active: 2048,
        metadata: 0,
        resident: 1048576,
        mapped: 2097152,
        retained: 0,
    };
    let jl = jemalloc_line(&je, "50.0");
    assert_eq!(
        jl,
        "jemalloc [ allocated: 1.0 KB | active: 2.0 KB | metadata: 0.0 KB | resident: 1.0 MB | mapped: 2.0 MB | retained: 0.0 KB | frag: 50.0% ]"
    );
    assert_eq!(log_memory_stats(None, None), None);
    assert_eq!(log_memory_stats(None, Some(&pm)), Some(format!("[MEM] {}", os)));
    assert_eq!(log_memory_stats(Some((&je, "50.0")), None), Some(format!("[MEM] {}", jl)));
    assert_eq!(
        log_memory_stats(Some((&je, "50.0")), Some(&pm)),
        Some(format!("[MEM] {} | {}", jl, os))
    );
}

#[test]
fn monitor_purges_every_thirtieth_tick() {
    assert_eq!(monitor_tick(0), (1, false));
    assert_eq!(monitor_tick(28), (29, false));
    assert_eq!(monitor_tick(29), (30, true));
    assert_eq!(monitor_tick(59), (60, true));
}
