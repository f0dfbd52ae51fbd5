use osvwm::telemetry::{
    CoreFrequencyFiles, CpuDeltas, CpuStat, DrmCard, FanFiles, InterfaceFiles, GpuPower, HwmonFiles, TelemetryBackend, TemperatureFiles,
};

#[test]
fn cpu_counters_of_proc_stat() {
    let stat = "cpu  100 5 50 1000 20 1 2 0 0 0\ncpu0 50 2 25 500 10 1 1 0 0 0\ncpu1 x 3\nintr 12345\nbtime 1700000000\n";
    let s = TelemetryBackend::read_cpu_stats(stat);
    assert_eq!(s.len(), 2);
    assert_eq!(
        s[0],
        CpuStat { user: 100, nice: 5, system: 50, idle: 1000, iowait: 20, irq: 1, softirq: 2, steal: 0 }
    );
    assert_eq!(s[1].idle, 500);
    assert_eq!(TelemetryBackend::boot_time_of(Some(stat)), 1_700_000_000);
}

#[test]
fn memory_and_system_files() {
    let m = TelemetryBackend::memory_info(
        "MemTotal: 8000 kB\nMemFree: 1000 kB\nMemAvailable: 3000 kB\nBuffers: 100 kB\nCached: 900 kB\nSwapTotal: 2000 kB\nSwapFree: 500 kB\n",
    );
    assert_eq!(m.total_bytes, 8000 * 1024);
    assert_eq!(m.available_bytes, 3000 * 1024);
    assert_eq!(m.used_bytes, 5000 * 1024);
    assert_eq!(m.swap_total_bytes, 2000 * 1024);
    assert_eq!(m.swap_used_bytes, 1500 * 1024);
    assert_eq!(
        TelemetryBackend::kernel_of(Some("Linux version 6.8.9-arch1-1 (linux@archlinux) #1 SMP")),
        "6.8.9-arch1-1"
    );
    assert_eq!(TelemetryBackend::kernel_of(None), "unknown");
    assert_eq!(TelemetryBackend::hostname_of(Some("box\n")), "box");
}

#[test]
fn process_tick_deltas() {
    let mut t = TelemetryBackend::new();
    assert_eq!(t.process_ticks(7, 100, 50), None);
    assert_eq!(t.process_ticks(7, 130, 60), Some(40));
    assert_eq!(t.process_ticks(7, 10, 10), Some(0));
}

#[test]
fn process_files() {
    let p = TelemetryBackend::parse_process_stat("42 (my (odd) proc) S 1 42 42 0 -1 4194560 100 0 0 0 300 120 0 0 20 0 1 0 5000 10000000 2500").unwrap();
    assert_eq!(p.name, "my (odd) proc");
    assert_eq!(p.utime, 300);
    assert_eq!(p.stime, 120);
    assert_eq!(
        TelemetryBackend::process_command(Some("/usr/bin/foo\u{0}--bar\u{0}"), "foo"),
        "/usr/bin/foo --bar"
    );
    assert_eq!(TelemetryBackend::process_command(Some(""), "kworker"), "[kworker]");
    assert_eq!(TelemetryBackend::process_uid("Name:\tbash\nUid:\t1000\t1000\t1000\t1000\n"), Some(1000));
    assert_eq!(
        TelemetryBackend::uid_to_username(Some("root:x:0:0::/root:/bin/sh\nada:x:1000:1000::/home/ada:/bin/zsh\n"), 1000),
        Some("ada".to_string())
    );
}

#[test]
fn io_counters() {
    let ds = "   8       0 sda 100 0 2000 50 200 0 4000 80 0 0 0 0 0 0 0\n   8       1 sda1 10 0 20 5 20 0 40 8 0 0 0 0 0 0 0\n 259       0 nvme0n1 1 0 8 1 2 0 16 1 0 0 0 0 0 0 0\n";
    let d = TelemetryBackend::disk_io(ds);
    let names: Vec<&str> = d.iter().map(|x| x.device.as_str()).collect();
    assert_eq!(names, vec!["sda", "nvme0n1"]);
    assert_eq!(d[0].read_bytes, 2000 * 512);
    let nd = "Inter-|   Receive                                                |  Transmit\n face |bytes    packets errs drop fifo frame compressed multicast|bytes    packets errs drop fifo colls carrier compressed\n    lo: 1000 10 0 0 0 0 0 0 1000 10 0 0 0 0 0 0\n  eth0: 5000 50 0 0 0 0 0 0 7000 70 0 0 0 0 0 0\n";
    let n = TelemetryBackend::network_io(nd);
    assert_eq!(n.len(), 1);
    assert_eq!(n[0].interface, "eth0");
    assert_eq!(n[0].rx_bytes, 5000);
    assert_eq!(n[0].tx_bytes, 7000);
}

fn some(s: &str) -> Option<String> {
    Some(s.to_string())
}

#[test]
fn temperature_inputs() {
    let inputs = vec![
        TemperatureFiles { label: some("Package id 0\n"), input: some("45000\n"), max: some("80000\n"), crit: some("100000\n") },
        TemperatureFiles { label: None, input: some("-5000"), max: None, crit: some("junk") },
        TemperatureFiles { label: None, input: None, max: None, crit: None },
    ];
    let t = TelemetryBackend::temperatures(Some("coretemp\n"), &inputs);
    assert_eq!(t.len(), 3);
    assert_eq!(t[0].label, "Package id 0");
    assert_eq!(t[0].current_millicelsius, 45000);
    assert_eq!(t[0].high_millicelsius, Some(80000));
    assert_eq!(t[0].critical_millicelsius, Some(100000));
    assert_eq!(t[1].label, "coretemp temp2");
    assert_eq!(t[1].current_millicelsius, -5000);
    assert_eq!(t[1].critical_millicelsius, None);
    assert_eq!(t[2].label, "coretemp temp3");
    assert_eq!(t[2].current_millicelsius, 0);
    let u = TelemetryBackend::temperatures(None, &inputs[1..2]);
    assert_eq!(u[0].label, "unknown temp1");
}

#[test]
fn nvidia_smi_output() {
    let g = TelemetryBackend::nvidia_gpu(Some("NVIDIA GeForce RTX 3080, 550.54, 10240, 1024, 7, 45, 30.50\n")).unwrap();
    assert_eq!(g.name, "NVIDIA GeForce RTX 3080");
    assert_eq!(g.vendor, "NVIDIA");
    assert_eq!(g.driver, "550.54");
    assert_eq!(g.vram_total_mb, Some(10240));
    assert_eq!(g.vram_used_mb, Some(1024));
    assert_eq!(g.utilization_percent, Some(7));
    assert_eq!(g.temperature_celsius, Some(45));
    assert_eq!(g.power, Some(GpuPower::WattsText("30.50".to_string())));
    let bad = TelemetryBackend::nvidia_gpu(Some("GPU, 1, [N/A], 2, 300, 40, 10")).unwrap();
    assert_eq!(bad.vram_total_mb, None);
    assert_eq!(bad.utilization_percent, None);
    assert!(TelemetryBackend::nvidia_gpu(Some("a, b, c")).is_none());
    assert!(TelemetryBackend::nvidia_gpu(None).is_none());
}

#[test]
fn gpus_from_monitors_and_cards() {
    let hwmon = vec![
        HwmonFiles { name: some("coretemp\n"), temp1_input: some("40000"), power1_average: None },
        HwmonFiles { name: some("amdgpu\n"), temp1_input: some("52000\n"), power1_average: some("15000000\n") },
    ];
    let amd = TelemetryBackend::amd_gpus(&hwmon);
    assert_eq!(amd.len(), 1);
    assert_eq!(amd[0].name, "AMD GPU");
    assert_eq!(amd[0].temperature_celsius, Some(52));
    assert_eq!(amd[0].power, Some(GpuPower::Microwatts(15_000_000)));
    let drm = vec![
        DrmCard { name: "card0-eDP-1".to_string(), vendor: some("0x8086"), driver_link: None },
        DrmCard { name: "card1".to_string(), vendor: some("0x10de\n"), driver_link: some("../../../bus/pci/drivers/nouveau") },
        DrmCard { name: "renderD128".to_string(), vendor: None, driver_link: None },
    ];
    assert!(TelemetryBackend::intel_gpu(&drm).is_none());
    let cards = TelemetryBackend::drm_gpus(&drm);
    assert_eq!(cards.len(), 1);
    assert_eq!(cards[0].name, "GPU card1");
    assert_eq!(cards[0].vendor, "0x10de");
    assert_eq!(cards[0].driver, "nouveau");
    let all = TelemetryBackend::gpu_info(None, &hwmon[..1], &drm);
    assert_eq!(all.len(), 1);
    assert_eq!(all[0].name, "GPU card1");
    let intel = vec![DrmCard { name: "card0".to_string(), vendor: some("0x8086\n"), driver_link: None }];
    let both = TelemetryBackend::gpu_info(None, &hwmon, &intel);
    assert_eq!(both.len(), 2);
    assert_eq!(both[0].vendor, "AMD");
    assert_eq!(both[1].name, "Intel Integrated Graphics");
    assert_eq!(both[1].driver, "i915");
}

#[test]
fn disk_mounts_and_space() {
    let m = TelemetryBackend::disk_mounts(
        "/dev/nvme0n1p2 / ext4 rw,relatime 0 0\nproc /proc proc rw 0 0\n/dev/loop0 /snap/core squashfs ro 0 0\n/dev/sda1 /boot vfat rw 0 0\nshort\n",
    );
    assert_eq!(m.len(), 2);
    assert_eq!(m[0].device, "/dev/nvme0n1p2");
    assert_eq!(m[0].mount_point, "/");
    assert_eq!(m[0].filesystem, "ext4");
    assert_eq!(m[1].mount_point, "/boot");
    assert_eq!(TelemetryBackend::disk_space(4096, 1000, 250, 200), (4_096_000, 3_072_000, 819_200));
    assert_eq!(TelemetryBackend::disk_space(4096, 10, 20, 5), (40_960, 0, 20_480));
}

fn stat(user: u64, system: u64, idle: u64, iowait: u64) -> CpuStat {
    CpuStat { user, nice: 1, system, idle, iowait, irq: 0, softirq: 0, steal: 0 }
}

#[test]
fn cpu_counter_growth() {
    let d = TelemetryBackend::cpu_deltas(&stat(100, 50, 1000, 10), &stat(160, 70, 1100, 30));
    assert_eq!(d, CpuDeltas { total: 200, idle: 120, user: 60, system: 20, iowait: 20 });
    let back = TelemetryBackend::cpu_deltas(&stat(100, 50, 1000, 10), &stat(90, 50, 1000, 10));
    assert_eq!(back, CpuDeltas { total: 0, idle: 0, user: 0, system: 0, iowait: 0 });
    let prev = vec![stat(10, 10, 10, 0), stat(5, 5, 5, 0), stat(5, 5, 5, 0)];
    let curr = vec![stat(20, 10, 10, 0), stat(6, 5, 5, 0)];
    let (overall, cores) = TelemetryBackend::cpu_usage_deltas(&prev, &curr);
    assert_eq!(overall.unwrap().user, 10);
    assert_eq!(cores.len(), 1);
    assert_eq!(cores[0].total, 1);
    let (none, empty) = TelemetryBackend::cpu_usage_deltas(&[], &curr);
    assert!(none.is_none());
    assert!(empty.is_empty());
}

#[test]
fn cpu_frequencies_of_cores() {
    let cores = vec![
        CoreFrequencyFiles { current: some("2400000\n"), min: some("800000"), max: some("4000000") },
        CoreFrequencyFiles { current: some("3000000"), min: some("400000"), max: some("4500000") },
        CoreFrequencyFiles { current: None, min: some("100000"), max: some("9000000") },
    ];
    let f = TelemetryBackend::cpu_frequency(&cores);
    assert_eq!(f.per_core_mhz, vec![2400, 3000]);
    assert_eq!(f.current_mhz, 2700);
    assert_eq!(f.min_mhz, 400);
    assert_eq!(f.max_mhz, 4500);
    let none = TelemetryBackend::cpu_frequency(&[]);
    assert_eq!(none.current_mhz, 0);
    assert_eq!(none.min_mhz, 0);
    assert_eq!(none.max_mhz, 0);
}

#[test]
fn interface_and_fan_files() {
    let files = InterfaceFiles {
        name: "wlan0".to_string(),
        operstate: some("up\n"),
        address: some("aa:bb:cc:dd:ee:ff\n"),
        speed: some("-1"),
        addresses: "3: wlan0: <UP>\n    inet 192.168.1.20/24 brd 192.168.1.255 scope global\n    inet6 fe80::1/64 scope link\n    inet6 2001:db8::5/64 scope global\n".to_string(),
    };
    let i = TelemetryBackend::network_interface(&files).unwrap();
    assert_eq!(i.name, "wlan0");
    assert!(i.is_up);
    assert_eq!(i.mac_address, some("aa:bb:cc:dd:ee:ff"));
    assert_eq!(i.speed_mbps, None);
    assert_eq!(i.ipv4, vec!["192.168.1.20/24".to_string()]);
    assert_eq!(i.ipv6, vec!["2001:db8::5/64".to_string()]);
    let lo = InterfaceFiles { name: "lo".to_string(), operstate: None, address: None, speed: None, addresses: String::new() };
    assert!(TelemetryBackend::network_interface(&lo).is_none());

    let fans = vec![
        FanFiles { label: some("CPU Fan\n"), input: some("1200\n") },
        FanFiles { label: None, input: some("0") },
        FanFiles { label: None, input: some("800") },
    ];
    let f = TelemetryBackend::fan_speeds(Some("thinkpad\n"), &fans);
    assert_eq!(f.len(), 2);
    assert_eq!(f[0].label, "CPU Fan");
    assert_eq!(f[0].rpm, 1200);
    assert_eq!(f[1].label, "thinkpad fan3");
    assert_eq!(f[1].rpm, 800);
}

#[test]
fn driver_names_from_links() {
    let card = |link: &str| DrmCard { name: "card0".to_string(), vendor: None, driver_link: some(link) };
    let drm = vec![
        card("../../../bus/pci/drivers/i915/"),
        card("amdgpu"),
        card("../drivers/.."),
        card("/"),
        card("./x/."),
    ];
    let g = TelemetryBackend::drm_gpus(&drm);
    let drivers: Vec<&str> = g.iter().map(|x| x.driver.as_str()).collect();
    assert_eq!(drivers, vec!["i915", "amdgpu", "Unknown", "Unknown", "x"]);
    assert_eq!(g[0].vendor, "Unknown");
}
