use std::cell::RefCell;
use std::rc::Rc;

use oathgate::bridge::{BridgeAction, BridgeBuilder, BridgeSignal, Bridge};
use oathgate::config::{BridgeConfig, BridgeRouterConfig, TapConfig, VirtioConfig, WanConfig};
use oathgate::dhcp::DhcpConfig;
use oathgate::error::ProtocolError;
use oathgate::fabrial::{console_step, session_dispatch, ConsoleStep, SessionAction};
use oathgate::guest::{cid_from_mac, guest_dispatch, listen_plan, GuestAction, Host, SocketTarget};
use oathgate::hypervisor::{HypervisorAction, HypervisorLoop, SignalAction};
use oathgate::keys::{console_message, encode_char, encode_key, viewer_handle, EventAction, EventHandler, KeyCode, KeyEvent, KeyEventKind, KeyModifiers, TermEvent};
use oathgate::netaddress::NetworkAddress;
use oathgate::tap::{device_mac, tap_request, IFF_TAP, IFF_TUN};
use oathgate::terminal::{OathgatePty, TerminalMap};
use oathgate::types::MacAddress;
use oathgate::wan::{wan_packet_kind, WanPacket};
use oathgate::viewer::{viewer_dispatch, viewer_qemu_args, viewer_signal, ViewerAction, ViewerMachine};

#[derive(Clone)]
struct FakePty {
    id: u8,
    log: Rc<RefCell<Vec<String>>>,
}

impl OathgatePty for FakePty {
    fn write_pty(&self, data: &[u8]) -> std::io::Result<()> {
        self.log.borrow_mut().push(format!("{} write {:?}", self.id, data));
        Ok(())
    }

    fn resize_pty(&self, rows: u16, cols: u16) -> std::io::Result<()> {
        self.log.borrow_mut().push(format!("{} resize {}x{}", self.id, rows, cols));
        Ok(())
    }
}

fn pty(id: u8, log: &Rc<RefCell<Vec<String>>>) -> FakePty {
    FakePty { id, log: Rc::clone(log) }
}

#[test]
fn terminal_map_insert_active_and_write() {
    let log = Rc::new(RefCell::new(Vec::new()));
    let mut m = TerminalMap::new();
    assert_eq!(m.get_size(), (24, 80));
    assert!(m.get_active().is_none());
    // nothing active: the write is discarded
    m.write_to_pty(b"x").unwrap();
    assert!(log.borrow().is_empty());
    m.insert(1, pty(1, &log));
    assert_eq!(log.borrow().as_slice(), &["1 resize 24x80".to_string()]);
    assert!(m.get(1).is_some());
    assert!(m.get(2).is_none());
    m.set_active(2);
    m.write_to_pty(b"y").unwrap();
    assert_eq!(log.borrow().len(), 1);
    m.set_active(1);
    assert_eq!(m.get_active().unwrap().id, 1);
    m.write_to_pty(b"z").unwrap();
    assert_eq!(log.borrow().last().unwrap(), "1 write [122]");
}

#[test]
fn terminal_map_resizes_all_on_change_only() {
    let log = Rc::new(RefCell::new(Vec::new()));
    let mut m = TerminalMap::default();
    m.insert(1, pty(1, &log));
    m.insert(2, pty(2, &log));
    log.borrow_mut().clear();
    m.set_size(24, 80);
    assert!(log.borrow().is_empty());
    m.set_size(40, 120);
    assert_eq!(m.get_size(), (40, 120));
    let mut got = log.borrow().clone();
    got.sort();
    assert_eq!(got, vec!["1 resize 40x120".to_string(), "2 resize 40x120".to_string()]);
    m.insert(3, pty(3, &log));
    assert_eq!(log.borrow().last().unwrap(), "3 resize 40x120");
}

#[test]
fn hypervisor_tokens_and_dispatch() {
    let log = Rc::new(RefCell::new(Vec::new()));
    let mut hv = HypervisorLoop::new();
    let mut m = TerminalMap::new();
    hv.attach_stdio(&mut m, pty(1, &log));
    assert_eq!(m.get_active().unwrap().id, 1);
    assert_eq!(hv.next_token(), 10);
    let t = hv.attach_fabrial(&mut m, pty(2, &log));
    assert_eq!(t, 10);
    let t2 = hv.attach_fabrial(&mut m, pty(3, &log));
    assert_eq!(t2, 11);
    assert_eq!(m.get_active().unwrap().id, 3);
    assert_eq!(m.get(10).unwrap().id, 2);
    assert_eq!(m.get(1).unwrap().id, 1);
    assert_eq!(hv.dispatch(2, &m), HypervisorAction::LogStderr);
    assert_eq!(hv.dispatch(3, &m), HypervisorAction::ReadSignal);
    assert_eq!(hv.dispatch(4, &m), HypervisorAction::AcceptVm);
    assert_eq!(hv.dispatch(10, &m), HypervisorAction::ReadTerminal(10));
    assert_eq!(hv.dispatch(12, &m), HypervisorAction::Unknown(12));
    assert_eq!(HypervisorLoop::on_signal(2), SignalAction::Stop);
    assert_eq!(HypervisorLoop::on_signal(15), SignalAction::Stop);
    assert_eq!(HypervisorLoop::on_signal(1), SignalAction::Continue);
    assert_eq!(HypervisorLoop::fabrial_endpoint([0x21, 0x4e]), (20001, 3715));
}

fn bridge_config() -> BridgeConfig {
    BridgeConfig {
        wan: WanConfig::Tap(TapConfig { device: String::from("oathgate0") }),
        router: BridgeRouterConfig {
            ipv4: NetworkAddress::new_v4([10, 0, 0, 1], 24),
            dhcp: DhcpConfig { start: 0x0a000064, end: 0x0a0000c8 },
        },
    }
}

#[test]
fn bridge_builder_paths() {
    let b: Bridge = BridgeBuilder::default().build(bridge_config(), "lab").unwrap();
    assert_eq!(b.socket_path(), "/tmp/oathgate/lab.sock");
    assert_eq!(b.pcap_path(), None);
    let b = BridgeBuilder::new().pcap(Some(String::from("/tmp/x.pcap"))).build(bridge_config(), "n2").unwrap();
    assert_eq!(b.pcap_path(), Some("/tmp/x.pcap"));
    assert_eq!(b.socket_path(), "/tmp/oathgate/n2.sock");
    match &b.config().wan {
        WanConfig::Tap(t) => assert_eq!(t.device, "oathgate0"),
        other => panic!("unexpected {:?}", other),
    }
    assert_eq!(Bridge::dispatch(0), BridgeAction::Accept);
    assert_eq!(Bridge::dispatch(1), BridgeAction::ReadSignal);
    assert_eq!(Bridge::dispatch(5), BridgeAction::Unknown(5));
    assert_eq!(Bridge::on_signal(15), BridgeSignal::Stop);
    assert_eq!(Bridge::on_signal(10), BridgeSignal::Unhandled(10));
    let v = VirtioConfig { queues: 2 };
    assert_eq!(v.queues, 2);
}

#[test]
fn guest_plan() {
    let mac = MacAddress::from_octets([0x52, 0x54, 0, 0x12, 0x4e, 0x21]);
    assert_eq!(cid_from_mac(&mac), 0x4e21);
    let (bind, host) = listen_plan(true, 3715, 20001);
    assert!(matches!(bind, SocketTarget::Tcp([127, 0, 0, 1], 3715)));
    assert!(matches!(host.target(), SocketTarget::Tcp([127, 0, 0, 1], 3714)));
    let (bind, host) = listen_plan(true, 65536 + 5, 1);
    assert!(matches!(bind, SocketTarget::Tcp(_, 5)));
    let _ = host;
    let (bind, host) = listen_plan(false, 3715, 20001);
    assert!(matches!(bind, SocketTarget::Vsock(0xffff_ffff, 3715)));
    assert!(matches!(host.target(), SocketTarget::Vsock(20001, 20001)));
    assert!(matches!(Host::new_vsock(3, 4).target(), SocketTarget::Vsock(3, 4)));
    assert_eq!(Host::started_message(0x01020304), [4, 3, 2, 1]);
    assert_eq!(guest_dispatch(0), GuestAction::AcceptAndSpawn);
    assert_eq!(guest_dispatch(1), GuestAction::HealthTick);
    assert_eq!(guest_dispatch(7), GuestAction::Unknown(7));
}

#[test]
fn tap_requests() {
    let req = tap_request("oathgate1", IFF_TAP).unwrap();
    assert_eq!(&req.name[0..9], b"oathgate1");
    assert!(req.name[9..].iter().all(|b| *b == 0));
    assert_eq!(req.flags, 0x1002);
    assert_eq!(tap_request("tun0", IFF_TUN).unwrap().flags, 0x1001);
    assert!(tap_request("sixteen-bytes-xx", IFF_TAP).is_ok());
    assert_eq!(
        tap_request("seventeen-bytes-x", IFF_TAP).unwrap_err(),
        "device name (seventeen-bytes-x) is too long, max length is 16, provided length 17"
    );
    let mac = device_mac(IFF_TAP, &[0x52, 0x54, 0, 1, 2, 3, 0, 0]).unwrap();
    assert_eq!(mac.to_string(), "52:54:00:01:02:03");
    match device_mac(IFF_TAP, &[1, 2]) {
        Err(ProtocolError::NotEnoughData(2, 6)) => (),
        other => panic!("unexpected {:?}", other),
    }
    let tun = device_mac(IFF_TUN, &[]).unwrap();
    assert_eq!(&tun.as_bytes()[0..3], &[0x52, 0x54, 0]);
}

#[test]
fn viewer_command_and_loop() {
    let m = ViewerMachine {
        cpu: String::from("q35"),
        memory: String::from("512M"),
        kernel: String::from("/k"),
        disk: String::from("/d.img"),
    };
    let args = viewer_qemu_args("/tmp/oathgate.sock", &m);
    assert_eq!(args.len(), 30);
    assert_eq!(args[12], "earlyprintk=ttyS0 console=ttyS0 root=/dev/vda reboot=k");
    assert_eq!(args[19], "memory-backend-memfd,id=mem,size=512M,share=on");
    assert_eq!(args[23], "id=root,file=/d.img,format=raw,if=virtio");
    assert_eq!(args[25], "socket,id=chr0,path=/tmp/oathgate.sock");
    assert_eq!(args[29], "virtio-net-pci,netdev=net0");
    assert_eq!(viewer_dispatch(0), ViewerAction::ForwardInput);
    assert_eq!(viewer_dispatch(1), ViewerAction::ProcessOutput);
    assert_eq!(viewer_dispatch(2), ViewerAction::LogStderr);
    assert_eq!(viewer_dispatch(3), ViewerAction::ReadSignal);
    assert_eq!(viewer_dispatch(4), ViewerAction::Unknown(4));
    assert_eq!(viewer_signal(15), SignalAction::Stop);
    assert_eq!(viewer_signal(2), SignalAction::Continue);
}

fn key(code: KeyCode, modifiers: KeyModifiers) -> TermEvent {
    TermEvent::Key(KeyEvent { code, modifiers, kind: KeyEventKind::Press })
}

fn written(a: EventAction) -> Vec<u8> {
    match a {
        EventAction::Write(v) => v,
        other => panic!("unexpected {:?}", other),
    }
}

#[test]
fn runner_keys() {
    let mut h = EventHandler::default();
    assert!(matches!(h.handle(key(KeyCode::F(4), KeyModifiers::Empty)), EventAction::Quit));
    assert_eq!(written(h.handle(key(KeyCode::Char('é'), KeyModifiers::Empty))), "é".as_bytes());
    assert_eq!(written(h.handle(key(KeyCode::Up, KeyModifiers::Empty))), vec![0x1b, 0x5b, 0x41]);
    assert_eq!(written(h.handle(key(KeyCode::Tab, KeyModifiers::Empty))), vec![0x09]);
    assert_eq!(written(h.handle(key(KeyCode::Char('d'), KeyModifiers::Control))), vec![0x04]);
    assert!(matches!(h.handle(key(KeyCode::Char('c'), KeyModifiers::Control)), EventAction::Ignore));
    assert!(matches!(h.handle(key(KeyCode::Char('a'), KeyModifiers::Shift)), EventAction::Ignore));
    let release = TermEvent::Key(KeyEvent { code: KeyCode::Char('a'), modifiers: KeyModifiers::Empty, kind: KeyEventKind::Release });
    assert!(matches!(h.handle(release), EventAction::Ignore));
    assert!(matches!(h.handle(TermEvent::Resize { cols: 100, rows: 30 }), EventAction::Resize { rows: 30, cols: 100 }));
}

#[test]
fn viewer_keys() {
    assert!(matches!(viewer_handle(key(KeyCode::F(4), KeyModifiers::Control)), EventAction::Quit));
    assert_eq!(written(viewer_handle(key(KeyCode::Char('q'), KeyModifiers::Control))), b"q");
    assert_eq!(written(viewer_handle(key(KeyCode::Delete, KeyModifiers::Empty))), vec![0x7f]);
    assert!(matches!(viewer_handle(key(KeyCode::Tab, KeyModifiers::Empty)), EventAction::Ignore));
    assert!(matches!(viewer_handle(TermEvent::Other), EventAction::Ignore));
}

#[test]
fn console_keys() {
    assert_eq!(encode_char('€'), "€".as_bytes());
    let up = KeyEvent { code: KeyCode::Up, modifiers: KeyModifiers::Empty, kind: KeyEventKind::Press };
    assert_eq!(encode_key(&up), vec![0x1b, 0x4f, 0x41]);
    let f5 = KeyEvent { code: KeyCode::F(5), modifiers: KeyModifiers::Empty, kind: KeyEventKind::Press };
    assert_eq!(encode_key(&f5), vec![0x1b, 0x5b, 0x31, 0x35, 0x7e]);
    let ctrl_c = KeyEvent { code: KeyCode::Char('c'), modifiers: KeyModifiers::Control, kind: KeyEventKind::Press };
    assert_eq!(encode_key(&ctrl_c), vec![0x03]);
    assert_eq!(console_message(TermEvent::Key(ctrl_c)), Some(vec![1, 1, 0, 0x03]));
    assert_eq!(console_message(TermEvent::Resize { cols: 80, rows: 24 }), Some(vec![2, 24, 0, 80, 0]));
    assert_eq!(console_message(key(KeyCode::Esc, KeyModifiers::Empty)), None);
    assert_eq!(console_message(TermEvent::Other), None);
}

#[test]
fn wan_packet_versions() {
    assert_eq!(wan_packet_kind(&[0x45, 0]), WanPacket::V4);
    assert_eq!(wan_packet_kind(&[0x60]), WanPacket::V6);
    assert_eq!(wan_packet_kind(&[0x10]), WanPacket::Unknown(1));
}

#[test]
fn session_and_console_steps() {
    use_steps();
}

fn use_steps() {
    assert_eq!(session_dispatch(10), SessionAction::ReadSocket);
    assert_eq!(session_dispatch(20), SessionAction::ReadTty);
    assert_eq!(session_dispatch(0), SessionAction::Unknown(0));
    assert_eq!(console_step(Ok(0)), Ok(ConsoleStep::Closed));
    assert_eq!(console_step(Ok(12)), Ok(ConsoleStep::Print(12)));
    assert_eq!(console_step(Err(11)), Ok(ConsoleStep::Drained));
    assert_eq!(console_step(Err(104)), Err(104));
}
