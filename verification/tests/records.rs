use oathgate::archive::is_gzip;
use oathgate::cli::{DeviceType, DiskFormat, LogEntry, LogLevel, ProcessState, StopSignal, StopStep, Stopper};
use oathgate::kernel::{extract_version, kernel_file_kind, version_from_strings, KernelFileKind};
use oathgate::logger::{event_lines_of, field_key_of, level_enabled, SqliteSubscriberBuilder};
use oathgate::models::{
    generate_cid, network_sockets, uuid_to_string, Device, DiskImage, Kernel, ShardBuilder, ShardStop,
};
use oathgate::runner::{DiskConfig, KernelConfig, MachineConfig, VmHandle, QEMU};
use oathgate::table::{draw_table, AsTable};
use oathgate::types::MacAddress;

#[test]
fn log_level_names_roundtrip() {
    for l in [LogLevel::Error, LogLevel::Warn, LogLevel::Info, LogLevel::Debug, LogLevel::Trace] {
        assert_eq!(LogLevel::from_str(&l.to_string()).unwrap(), l);
    }
    assert_eq!(LogLevel::Warn.to_string(), "warn");
    assert_eq!(LogLevel::from_str("loud").unwrap_err(), "unknown log level");
    assert_eq!(LogLevel::from_str("INFO").unwrap_err(), "unknown log level");
}

#[test]
fn verbosity_levels() {
    assert_eq!(LogLevel::from_verbosity(0), LogLevel::Warn);
    assert_eq!(LogLevel::from_verbosity(1), LogLevel::Info);
    assert_eq!(LogLevel::from_verbosity(2), LogLevel::Debug);
    assert_eq!(LogLevel::from_verbosity(3), LogLevel::Trace);
    assert_eq!(LogLevel::from_verbosity(200), LogLevel::Trace);
}

#[test]
fn device_type_codes() {
    assert_eq!(DeviceType::Bridge.to_string(), "bridge");
    assert_eq!(DeviceType::Bridge.code(), 0);
    assert_eq!(DeviceType::from_code(0).unwrap(), DeviceType::Bridge);
    assert_eq!(DeviceType::from_code(3).unwrap_err(), "invalid number for device type");
}

#[test]
fn disk_format_names() {
    assert_eq!(DiskFormat::from_str("RAW").unwrap(), DiskFormat::Raw);
    assert_eq!(DiskFormat::from_str("Qcow2").unwrap(), DiskFormat::Qcow2);
    assert_eq!(DiskFormat::from_str("VHDX").unwrap_err(), "unknown disk format: vhdx");
    assert_eq!(DiskFormat::Qcow2.to_string(), "qcow2");
    assert_eq!(DiskFormat::from_str(&DiskFormat::Raw.to_string()).unwrap(), DiskFormat::Raw);
    assert_eq!(DiskFormat::from_mime("application/x-qemu-disk"), (DiskFormat::Qcow2, true));
    assert_eq!(DiskFormat::from_mime("application/octet-stream"), (DiskFormat::Raw, true));
    assert_eq!(DiskFormat::from_mime("text/plain"), (DiskFormat::Raw, false));
}

#[test]
fn process_states() {
    assert_eq!(ProcessState::Running(5).optional(), Some(5));
    assert_eq!(ProcessState::PermissionDenied(6).optional(), Some(6));
    assert_eq!(ProcessState::Dead(7).optional(), None);
    assert_eq!(ProcessState::Stopped.optional(), None);
    assert_eq!(ProcessState::PermissionDenied(6).to_string(), "permission denied");
    assert_eq!(ProcessState::from_probe(9, Ok(())), Ok(ProcessState::Running(9)));
    assert_eq!(ProcessState::from_probe(9, Err(3)), Ok(ProcessState::Dead(9)));
    assert_eq!(ProcessState::from_probe(9, Err(1)), Ok(ProcessState::PermissionDenied(9)));
    assert_eq!(ProcessState::from_probe(9, Err(22)), Err(22));
}

#[test]
fn stopping_sends_three_terms_then_a_kill() {
    let mut s = Stopper::new();
    let mut sent = Vec::new();
    loop {
        sent.push(s.signal());
        match s.after_check(ProcessState::Running(42)) {
            StopStep::Retry => continue,
            StopStep::GaveUp => break,
            other => panic!("unexpected {:?}", other),
        }
    }
    assert_eq!(sent, vec![StopSignal::Term, StopSignal::Term, StopSignal::Term, StopSignal::Kill]);
    let mut s = Stopper::new();
    assert_eq!(s.after_check(ProcessState::Dead(42)), StopStep::Stopped);
    let mut s = Stopper::new();
    assert_eq!(s.after_check(ProcessState::PermissionDenied(42)), StopStep::Denied);
}

#[test]
fn log_table_schema() {
    let t = LogEntry::table();
    assert!(t.starts_with("CREATE TABLE IF NOT EXISTS logs ("));
    assert!(t.contains("level   TEXT NOT NULL"));
}

fn kernel() -> Kernel {
    Kernel {
        id: 0x0190_1234_5678_7abc_8def_0123_4567_89ab,
        hash: String::from("abc"),
        name: String::from("k1"),
        version: String::from("6.9.1"),
        default: true,
    }
}

#[test]
fn uuid_hyphenated() {
    assert_eq!(uuid_to_string(0), "00000000-0000-0000-0000-000000000000");
    assert_eq!(kernel().id_str(), "01901234-5678-7abc-8def-0123456789ab");
    assert_eq!(uuid_to_string(u128::MAX), "ffffffff-ffff-ffff-ffff-ffffffffffff");
    let img = DiskImage { id: 1, hash: String::new(), name: String::new(), format: DiskFormat::Raw, root: None };
    assert_eq!(img.id_str(), "00000000-0000-0000-0000-000000000001");
}

#[test]
fn kernel_table_layout() {
    let lines = draw_table(&[kernel()]);
    assert_eq!(lines.len(), 5);
    assert_eq!(lines[0], "\u{250c}──────\u{252c}──────\u{252c}─────────\u{252c}─────────\u{2510}");
    assert_eq!(lines[1], "\u{2502} Hash \u{2502} Name \u{2502} Version \u{2502} Default \u{2502}");
    assert_eq!(lines[2], "\u{251c}──────\u{253c}──────\u{253c}─────────\u{253c}─────────\u{2524}");
    assert_eq!(lines[3], "\u{2502} abc  \u{2502} k1   \u{2502} 6.9.1   \u{2502} true    \u{2502}");
    assert_eq!(lines[4], "\u{2514}──────\u{2534}──────\u{2534}─────────\u{2534}─────────\u{2518}");
    assert_eq!(Kernel::header(), vec!["Hash", "Name", "Version", "Default"]);
}

#[test]
fn table_widens_to_longest_cell() {
    let mut k = kernel();
    k.name = String::from("a-much-longer-name");
    k.default = false;
    let lines = draw_table(&[kernel(), k]);
    assert_eq!(lines.len(), 6);
    assert_eq!(lines[1], "\u{2502} Hash \u{2502} Name               \u{2502} Version \u{2502} Default \u{2502}");
    assert_eq!(lines[4], "\u{2502} abc  \u{2502} a-much-longer-name \u{2502} 6.9.1   \u{2502} false   \u{2502}");
    let empty: Vec<Kernel> = Vec::new();
    assert_eq!(draw_table(&empty).len(), 4);
}

#[test]
fn image_table_row() {
    let img = DiskImage {
        id: 1,
        hash: String::from("ff00"),
        name: String::from("alpine"),
        format: DiskFormat::Qcow2,
        root: Some(2),
    };
    let lines = draw_table(&[img]);
    assert_eq!(lines[1], "\u{2502} Hash \u{2502} Name   \u{2502} Format \u{2502} Root Partition \u{2502}");
    assert_eq!(lines[3], "\u{2502} ff00 \u{2502} alpine \u{2502} qcow2  \u{2502} 2              \u{2502}");
}

#[test]
fn device_state_changes() {
    let mut d = Device::new(7, String::from("br0"), DeviceType::Bridge, String::from("{}"));
    assert_eq!(d.status(), ProcessState::Stopped);
    assert!(!d.is_running());
    d.set_started(99);
    assert_eq!(d.status(), ProcessState::Running(99));
    assert!(d.is_running());
    d.set_stopped();
    assert_eq!(d.status(), ProcessState::Stopped);
    assert_eq!(d.name(), "br0");
    assert_eq!(d.id(), 7);
}

#[test]
fn shard_builder_requires_fields_in_order() {
    let b = ShardBuilder::new();
    assert_eq!(b.build(1, 2).unwrap_err(), "name field is required");
    let mut b = ShardBuilder::new();
    b.name(String::from("s1"));
    assert_eq!(b.build(1, 2).unwrap_err(), "cpu type is required");
    let mut b = ShardBuilder::new();
    b.name(String::from("s1"));
    b.cpu(String::from("q35"));
    assert_eq!(b.build(1, 2).unwrap_err(), "memory field is required");
    let mut b = ShardBuilder::new();
    b.name(String::from("s1"));
    b.cpu(String::from("q35"));
    b.memory(512);
    assert_eq!(b.build(1, 2).unwrap_err(), "kernel field is required");
    let mut b = ShardBuilder::new();
    b.name(String::from("s1"));
    b.cpu(String::from("q35"));
    b.memory(512);
    b.kernel(kernel());
    assert_eq!(b.build(1, 2).unwrap_err(), "boot disk field is required");
}

fn shard() -> oathgate::models::Shard {
    let mut b = ShardBuilder::new();
    b.name(String::from("s1"));
    b.cpu(String::from("q35"));
    b.memory(512);
    b.kernel(kernel());
    b.boot_disk(DiskImage {
        id: 3,
        hash: String::from("ff"),
        name: String::from("img"),
        format: DiskFormat::Qcow2,
        root: Some(1),
    });
    b.add_network(
        Device::new(8, String::from("br0"), DeviceType::Bridge, String::new()),
        MacAddress::broadcast(),
    );
    b.build(11, 20001).unwrap()
}

#[test]
fn shard_machine_config_and_stop_plan() {
    let mut s = shard();
    assert_eq!(s.id(), 11);
    assert_eq!(s.cid(), 20001);
    assert_eq!(s.name(), "s1");
    assert_eq!(s.stop_plan(), ShardStop::Nothing);
    let links = s.network_links();
    assert_eq!(links.len(), 1);
    assert_eq!((links[0].shard_id, links[0].network_id), (11, 8));
    assert_eq!(links[0].mac, "ff:ff:ff:ff:ff:ff");
    let m = s.generate_machine_config(String::from("/k.bin"), String::from("/d.img"));
    assert_eq!(m.cpu, "q35");
    assert_eq!(m.memory, "512m");
    assert_eq!(m.kernel.path, "/k.bin");
    assert_eq!(m.kernel.root, "/dev/vda1");
    assert_eq!(m.disk.format.as_deref(), Some("qcow2"));
    s.set_running(77);
    assert!(s.is_running());
    assert_eq!(s.stop_plan(), ShardStop::StopProcess(77));
    s.set_stopped();
    assert!(!s.is_running());
}

#[test]
fn shard_sockets_need_running_networks() {
    let mut a = Device::new(1, String::from("br0"), DeviceType::Bridge, String::new());
    let b = Device::new(2, String::from("br1"), DeviceType::Bridge, String::new());
    let c = Device::new(3, String::from("br2"), DeviceType::Bridge, String::new());
    a.set_started(10);
    let socks = vec![String::from("/n/br0.sock"), String::from("/n/br1.sock"), String::from("/n/br2.sock")];
    assert_eq!(
        network_sockets(&[a, b, c], &socks).unwrap_err(),
        "all networks must be running. stopped networks: br1, br2"
    );
    let mut a = Device::new(1, String::from("br0"), DeviceType::Bridge, String::new());
    a.set_started(10);
    assert_eq!(network_sockets(&[a], &socks[0..1]).unwrap(), vec![String::from("/n/br0.sock")]);
    assert_eq!(network_sockets(&[], &[]).unwrap(), Vec::<String>::new());
}

#[test]
fn context_ids_in_range() {
    for _ in 0..100 {
        let c = generate_cid();
        assert!((20_000..30_000).contains(&c));
    }
}

fn machine() -> MachineConfig {
    MachineConfig {
        cpu: String::from("q35"),
        memory: String::from("512m"),
        kernel: KernelConfig { path: String::from("/k"), root: String::from("/dev/vda") },
        disk: DiskConfig { path: String::from("/d.img"), format: Some(String::from("raw")) },
    }
}

#[test]
fn qemu_configuration_texts() {
    let k = KernelConfig { path: String::from("/boot/k"), root: String::from("/dev/vda2") };
    assert_eq!(k.path(), "/boot/k");
    assert_eq!(k.as_qemu_append("ttyS0"), "earlyprintk=ttyS0 console=ttyS0 root=/dev/vda2 reboot=k");
    let d = DiskConfig { path: String::from("/d.img"), format: Some(String::from("raw")) };
    assert_eq!(d.as_qemu_drive("root"), "id=root,file=/d.img,format=raw,if=virtio");
    let d = DiskConfig { path: String::from("/d.img"), format: None };
    assert_eq!(d.as_qemu_drive("root"), "id=root,file=/d.img,if=virtio");
}

#[test]
fn vm_command_line() {
    let mac = MacAddress::parse(&[0x52, 0x54, 0x00, 0x01, 0x4e, 0x22]).unwrap();
    let vm = VmHandle::new(&[String::from("/tmp/a.sock"), String::from("/tmp/b.sock")], Some(mac), machine());
    // the id is the last two bytes of the machine's hardware address
    assert_eq!(vm.id(), 0x4e22);
    assert_eq!(vm.id(), 20002);
    assert_eq!(vm.mac(), mac);
    let (prog, args) = vm.command();
    assert_eq!(prog, QEMU);
    assert_eq!(args.len(), 26 + 12);
    assert_eq!(&args[0..4], &["-M", "q35", "-enable-kvm", "-cpu"]);
    assert_eq!(args[12], "earlyprintk=ttyS0 console=ttyS0 root=/dev/vda reboot=k");
    assert_eq!(args[19], "memory-backend-memfd,id=mem,size=512m,share=on");
    assert_eq!(args[23], "id=root,file=/d.img,format=raw,if=virtio");
    assert_eq!(args[25], "vhost-vsock-pci,guest-cid=20002");
    assert_eq!(args[27], "socket,id=chr0,path=/tmp/a.sock");
    assert_eq!(args[31], "virtio-net-pci,netdev=net0,mac=52:54:00:01:4e:22");
    assert_eq!(args[33], "socket,id=chr0,path=/tmp/b.sock");
}

#[test]
fn kernel_version_detection() {
    let out = "Linux kernel x86 boot executable bzImage, version 6.9.1-arch1 (linux@archlinux) #1 SMP";
    assert_eq!(kernel_file_kind(out), KernelFileKind::LinuxKernel);
    assert_eq!(extract_version(out).as_deref(), Some("6.9.1-arch1"));
    assert_eq!(kernel_file_kind("ELF 64-bit LSB executable"), KernelFileKind::Elf);
    assert_eq!(kernel_file_kind("ASCII text"), KernelFileKind::Other);
    assert_eq!(extract_version("no such word"), None);
    assert_eq!(extract_version("ends with version"), None);
    assert_eq!(extract_version("version  x").as_deref(), Some(""));
    let lines = vec![
        String::from("junk"),
        String::from("Linux version 6.1.0 (gcc)"),
        String::from("Linux version 9.9.9"),
    ];
    assert_eq!(version_from_strings(&lines).as_deref(), Some("6.1.0"));
    assert_eq!(version_from_strings(&lines[0..1]), None);
}

#[test]
fn gzip_header() {
    assert!(is_gzip([0x1f, 0x8b]));
    assert!(!is_gzip([0x50, 0x4b]));
}

#[test]
fn logger_settings_and_levels() {
    let b = SqliteSubscriberBuilder::new();
    assert_eq!(b.finish().unwrap_err(), "missing device id");
    let s = SqliteSubscriberBuilder::new().with_max_level(LogLevel::Debug).with_device_id(5).finish().unwrap();
    assert_eq!(s.max_level, LogLevel::Debug);
    assert_eq!(s.device_id, 5);
    assert!(level_enabled(LogLevel::Error, LogLevel::Warn));
    assert!(level_enabled(LogLevel::Warn, LogLevel::Warn));
    assert!(!level_enabled(LogLevel::Info, LogLevel::Warn));
    assert_eq!(field_key_of("r#type"), "type");
    assert_eq!(field_key_of("message"), "message");
}

#[test]
fn event_layout() {
    let fields = vec![
        (String::from("count"), String::from("3")),
        (String::from("message"), String::from("hello")),
        (String::from("peer"), String::from("10.0.0.2")),
    ];
    let lines = event_lines_of(Some("hello"), &fields, LogLevel::Info, "oathgate::bridge", "Tue, 1 Jul 2003 10:52:37 +0200");
    assert_eq!(
        lines,
        vec![
            String::from("hello"),
            String::from("\u{251c} count = 3"),
            String::from("\u{251c} peer = 10.0.0.2"),
            String::from("\u{251c} level = info"),
            String::from("\u{251c} target = oathgate::bridge"),
            String::from("\u{2514} datetime = Tue, 1 Jul 2003 10:52:37 +0200"),
            String::new(),
        ]
    );
    let lines = event_lines_of(None, &[], LogLevel::Error, "t", "now");
    assert_eq!(lines[0], "<no log message>");
    assert_eq!(lines.len(), 5);
}

#[test]
fn vm_id_is_last_two_bytes_of_generated_mac() {
    let vm = VmHandle::new(&[String::from("/tmp/a.sock")], None, machine());
    let m = vm.mac();
    let b = m.as_bytes();
    assert_eq!(&b[0..3], &[0x52, 0x54, 0x00]);
    assert_eq!(vm.id(), u32::from_be_bytes([0, 0, b[4], b[5]]));
    let (_, args) = vm.command();
    assert_eq!(args[25], format!("vhost-vsock-pci,guest-cid={}", vm.id()));
    assert_eq!(args[31], format!("virtio-net-pci,netdev=net0,mac={}", m.to_string()));
}

#[test]
fn shard_stop_transitions() {
    let mut s = shard();
    // already stopped: nothing to do
    assert!(s.stop(Ok(true)).is_ok());
    assert!(!s.is_running());
    s.set_running(5);
    // stopping the process failed: the shard keeps running
    assert_eq!(s.stop(Err(String::from("unable to send sigterm"))).unwrap_err(), "unable to send sigterm");
    assert!(s.is_running());
    // stopped (or given up on): marked stopped
    assert!(s.stop(Ok(false)).is_ok());
    assert!(!s.is_running());
    assert_eq!(s.stop_plan(), ShardStop::Nothing);
}
