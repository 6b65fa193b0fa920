//! End-to-end power flows against a canned two-J-Link / two-PPK2 bench (no
//! hardware): every action a flow asks for is answered from fixed text.
use mcp_uhubctl::hub::{
    parse_emu_list, power_cycle_with, power_off, power_on, uhubctl_outcome, usb_status, Action,
    BoardEntry, Boards, Event, Flow, HubError, Stage,
};

const LISTING: &str = "\
Current status for hub 1-11 [2109:2817 VIA Labs, Inc. USB2.0 Hub, USB 2.10, 4 ports, ppps]
  Port 1: 0103 power enable connect [1915:c00a Nordic Semiconductor PPK2 D4184E334B85]
  Port 2: 0100 power
  Port 3: 0507 power highspeed suspend enable connect [2109:2817 VIA Labs, Inc. USB2.0 Hub, USB 2.10, 4 ports, ppps]
  Port 4: 1103 power indicator enable connect [1366:1024 SEGGER J-Link_Apollo510B_r2.0 001160002965]
Current status for hub 1-12 [2109:2817 VIA Labs, Inc. USB2.0 Hub, USB 2.10, 4 ports, ppps]
  Port 1: 0103 power enable connect [1366:1024 SEGGER J-Link 001160003881]
  Port 2: 0103 power enable connect [1915:c00a Nordic Semiconductor PPK2 AABBCCDDEEFF]
";

const EMU_LIST: &str = "\
J-Link[0]: Connection: USB, Serial number: 1160002965, ProductName: J-Link-OB-Test, Nickname: apollo510b
J-Link[1]: Connection: USB, Serial number: 1160003881, ProductName: J-Link-OB-Apollo4-CortexM, Nickname: <not set>
";

/// The bench: what each tool answers.
struct Bench {
    listing: Option<&'static str>,
    present: &'static str,
    last_seen: Option<(String, String, Option<String>)>,
    log: Vec<String>,
}

impl Bench {
    fn new(present: &'static str) -> Self {
        Bench { listing: Some(LISTING), present, last_seen: None, log: Vec::new() }
    }

    fn run(&mut self, mut flow: Flow) -> Result<String, HubError> {
        loop {
            let action = flow.action();
            let ev = match action {
                Action::Finish(r) => return r,
                Action::ListProbes => Event::Probes(Ok(parse_emu_list(EMU_LIST))),
                Action::RunUhubctl(args) => {
                    self.log.push(args.join(" "));
                    if args.is_empty() {
                        match self.listing {
                            Some(l) => Event::Uhubctl(uhubctl_outcome(l, "", true)),
                            None => Event::Uhubctl(uhubctl_outcome("", "no hubs", false)),
                        }
                    } else {
                        Event::Uhubctl(uhubctl_outcome("Sent power command", "", true))
                    }
                }
                Action::Remember(key, loc, port, vidpid) => {
                    self.log.push(format!("remember {key} {loc}:{port}"));
                    self.last_seen = Some((loc, port, Some(vidpid)));
                    Event::Done
                }
                Action::Recall(_) => Event::Recalled(self.last_seen.clone()),
                Action::Sleep(s) => {
                    self.log.push(format!("sleep {s}"));
                    Event::Done
                }
                Action::CheckPresent(id) => {
                    if !id.is_empty() && self.present.contains(&id) {
                        Event::Lsusb(Some(format!("Bus 001 Device 009: ID {id} device\n")))
                    } else {
                        Event::Lsusb(Some(String::new()))
                    }
                }
            };
            assert!(flow.accepts(&ev));
            flow = flow.advance(ev);
        }
    }
}

fn boards() -> Boards {
    let mut m = Boards::new();
    m.insert(
        "apollo510b".to_string(),
        BoardEntry {
            vidpid: "1366:1024".to_string(),
            serial: Some("001160002965".to_string()),
            jlink_nickname: None,
        },
    );
    m
}

fn boards_nick() -> Boards {
    let mut m = Boards::new();
    m.insert(
        "fonz".to_string(),
        BoardEntry {
            vidpid: "1366:1024".to_string(),
            serial: None,
            jlink_nickname: Some("apollo510b".to_string()),
        },
    );
    m
}

#[test]
fn cycle_by_nickname_routes_to_serial_port() {
    let mut bench = Bench::new("1366:1024");
    let report = bench.run(power_cycle_with("apollo510b", 1, &boards(), None)).unwrap();
    assert!(report.contains("1-11:4"), "wrong port routed:\n{report}");
    assert!(report.contains("lsusb present=true"), "no verify:\n{report}");
}

#[test]
fn cycle_by_serial_picks_second_jlink() {
    let mut bench = Bench::new("1366:1024");
    let report = bench.run(power_cycle_with("001160003881", 1, &boards(), None)).unwrap();
    assert!(report.contains("1-12:1"), "wrong J-Link routed:\n{report}");
}

#[test]
fn ambiguous_short_name_fails_not_guesses() {
    // Two PPK2s on the bench: bare "ppk2" must refuse.
    let mut bench = Bench::new("");
    let err = bench.run(power_cycle_with("ppk2", 1, &boards(), None)).unwrap_err();
    assert!(err.message().contains("ambiguous"));
}

#[test]
fn unknown_target_is_rejected() {
    let mut bench = Bench::new("");
    let err = bench.run(power_cycle_with("microwave!", 1, &boards(), None)).unwrap_err();
    assert!(err.message().contains("unknown target"));
}

#[test]
fn cycle_by_segger_nickname_resolves_live_serial() {
    let mut bench = Bench::new("1366:1024");
    let report = bench.run(power_cycle_with("fonz", 1, &boards_nick(), None)).unwrap();
    // apollo510b -> JLink serial 1160002965 -> USB 001160002965 on 1-11:4.
    assert!(report.contains("1-11:4"), "wrong port routed:\n{report}");
    assert!(report.contains("lsusb present=true"), "no verify:\n{report}");
}

#[test]
fn uhubctl_failure_propagates() {
    let err = uhubctl_outcome("", "usage error", false).unwrap_err();
    assert!(err.message().contains("uhubctl failed"));
}

// ---------------------------------------------------------------------

#[test]
fn cycle_report_in_full() {
    let mut bench = Bench::new("1366:1024");
    let report = bench.run(power_cycle_with("apollo510b", 7, &boards(), None)).unwrap();
    assert_eq!(
        report,
        "target=apollo510b (1366:1024) at 1-11:4 [Port 4: 1103 power indicator enable connect [1366:1024 SEGGER J-Link_Apollo510B_r2.0 001160002965]]\n\
--- off ---\nSent power command\n\
after 7s off: lsusb present=true\n\
--- on ---\nSent power command\n\
after on + 4s: lsusb present=true\n"
    );
    assert_eq!(
        bench.log,
        vec![
            "".to_string(),
            "remember apollo510b 1-11:4".to_string(),
            "-l 1-11 -p 4 -a off".to_string(),
            "sleep 7".to_string(),
            "-l 1-11 -p 4 -a on".to_string(),
            "sleep 4".to_string(),
        ]
    );
}

#[test]
fn cycle_fails_when_device_does_not_return() {
    let mut bench = Bench::new("");
    let err = bench.run(power_cycle_with("apollo510b", 1, &boards(), None)).unwrap_err();
    match &err {
        HubError::NotReEnumerated(report) => assert!(report.ends_with("after on + 4s: lsusb present=false\n")),
        other => panic!("unexpected {other:?}"),
    }
    assert!(err.message().ends_with("device did not re-enumerate — check cables/hub power"));
}

#[test]
fn cycle_off_seconds_range() {
    let mut bench = Bench::new("");
    for bad in [0u64, 121] {
        let f = power_cycle_with("apollo510b", bad, &boards(), None);
        assert!(f.is_finished());
        let err = bench.run(f).unwrap_err();
        assert_eq!(err.message(), "off_seconds must be in 1..=120");
    }
    assert!(bench.log.is_empty());
    let f = power_cycle_with("apollo510b", 120, &boards(), None);
    assert!(!f.is_finished());
}

#[test]
fn cycle_uses_listing_override() {
    let mut bench = Bench::new("1915:c00a");
    bench.listing = None;
    let override_listing = "Current status for hub 9-9 [x]\n  Port 5: 0103 power [1915:c00a PPK2 ONLYONE]\n";
    let report = bench
        .run(power_cycle_with("ppk2", 1, &boards(), Some(override_listing)))
        .unwrap();
    assert!(report.starts_with("target=ppk2 (1915:c00a) at 9-9:5 ["));
    assert!(!bench.log.contains(&"".to_string()));
}

#[test]
fn listing_failure_is_the_error() {
    let mut bench = Bench::new("");
    bench.listing = None;
    let err = bench.run(power_off("apollo510b", &boards())).unwrap_err();
    assert_eq!(err.message(), "uhubctl failed:\n\n[stderr]\nno hubs");
}

#[test]
fn off_then_on_uses_last_known_location() {
    let mut bench = Bench::new("");
    let off = bench.run(power_off("apollo510b", &boards())).unwrap();
    assert_eq!(
        off,
        "target=apollo510b at 1-11:4\nSent power command\nlsusb present=false (want false)\n"
    );
    // The board is now off and absent from the listing.
    bench.listing = Some("Current status for hub 1-11 [hub]\n  Port 4: 0000 off\n");
    bench.present = "1366:1024";
    let on = bench.run(power_on("apollo510b", &boards())).unwrap();
    assert_eq!(
        on,
        "target=apollo510b at 1-11:4\nSent power command\nlsusb present=true (want true)\n"
    );
    assert!(bench.log.contains(&"-l 1-11 -p 4 -a on".to_string()));
}

#[test]
fn on_without_last_known_location_fails() {
    let mut bench = Bench::new("");
    bench.listing = Some("Current status for hub 1-11 [hub]\n");
    let err = bench.run(power_on("jlink", &boards())).unwrap_err();
    assert_eq!(
        err.message(),
        "device jlink not in listing and no last-known location — power it on once via uhubctl CLI (-l/-p), then use these tools"
    );
}

#[test]
fn status_reports_location_or_absence() {
    let mut bench = Bench::new("1915:c00a");
    let s = bench.run(usb_status("d4184e334b85", &boards())).unwrap();
    assert_eq!(
        s,
        "target=serial:d4184e334b85 (1915:c00a) at 1-11:1 [Port 1: 0103 power enable connect [1915:c00a Nordic Semiconductor PPK2 D4184E334B85]]\nlsusb present=true\n"
    );
    let s = bench.run(usb_status("sniffer", &boards())).unwrap();
    assert_eq!(
        s,
        "target=sniffer not in listing (no port matches vidpid=\"1915:522a\" serial=None)\n"
    );
}

#[test]
fn bad_segger_nickname_stops_before_listing() {
    let mut b = Boards::new();
    b.insert(
        "x".to_string(),
        BoardEntry { vidpid: "1366:1024".to_string(), serial: None, jlink_nickname: Some("1234".to_string()) },
    );
    let mut bench = Bench::new("");
    let f = power_off("x", &b);
    assert!(f.is_finished());
    let err = bench.run(f).unwrap_err();
    assert!(matches!(err, HubError::NicknameNumeric(_)));
    assert!(bench.log.is_empty());
}

#[test]
fn flow_waits_for_listing_first() {
    let f = power_off("jlink", &boards());
    assert!(!f.is_finished());
    match f.action() {
        Action::RunUhubctl(args) => assert!(args.is_empty()),
        other => panic!("unexpected {other:?}"),
    }
    assert!(!f.accepts(&Event::Done));
    let _ = Stage::AwaitListing;
}

#[test]
fn probe_list_failure_is_the_error() {
    let flow = power_cycle_with("fonz", 3, &boards_nick(), None);
    match flow.action() {
        Action::ListProbes => {}
        other => panic!("unexpected {other:?}"),
    }
    let flow = flow.advance(Event::Probes(Err(HubError::Io(
        "failed to spawn JLinkExe (is the J-Link software installed?): not found".to_string(),
    ))));
    match flow.action() {
        Action::Finish(Err(e)) => assert_eq!(
            e.message(),
            "failed to spawn JLinkExe (is the J-Link software installed?): not found"
        ),
        other => panic!("unexpected {other:?}"),
    }
}

#[test]
fn unknown_segger_nickname_is_the_error() {
    let flow = power_on("fonz", &boards_nick());
    let flow = flow.advance(Event::Probes(Ok(parse_emu_list(
        "Serial number: 5, ProductName: P, Nickname: other\n",
    ))));
    match flow.action() {
        Action::Finish(Err(HubError::NicknameNotFound(n, seen))) => {
            assert_eq!(n, "apollo510b");
            assert_eq!(seen.len(), 1);
        }
        other => panic!("unexpected {other:?}"),
    }
}

#[test]
fn status_resolves_segger_nickname_live() {
    // Two J-Links attached: the VID:PID alone is ambiguous, the nickname's
    // probe serial picks one.
    let mut bench = Bench::new("1366:1024");
    let s = bench.run(usb_status("fonz", &boards_nick())).unwrap();
    assert!(s.starts_with("target=fonz (1366:1024) at 1-11:4 ["), "{s}");
    assert!(s.ends_with("lsusb present=true\n"));
}

#[test]
fn serial_target_power_on_checks_recorded_vidpid() {
    let mut bench = Bench::new("");
    let off = bench.run(power_off("001160003881", &boards())).unwrap();
    assert!(off.starts_with("target=serial:001160003881 at 1-12:1\n"));
    assert_eq!(
        bench.last_seen,
        Some(("1-12".to_string(), "1".to_string(), Some("1366:1024".to_string())))
    );
    bench.listing = Some("Current status for hub 1-12 [hub]\n  Port 1: 0000 off\n");
    bench.present = "1366:1024";
    let on = bench.run(power_on("001160003881", &boards())).unwrap();
    assert!(on.ends_with("lsusb present=true (want true)\n"), "{on}");
}

#[test]
fn nickname_off_then_on_uses_last_known_location() {
    let mut bench = Bench::new("");
    let off = bench.run(power_off("fonz", &boards_nick())).unwrap();
    assert_eq!(
        off,
        "target=fonz at 1-11:4\nSent power command\nlsusb present=false (want false)\n"
    );
    bench.listing = Some("Current status for hub 1-11 [hub]\n  Port 4: 0000 off\n");
    bench.present = "1366:1024";
    let on = bench.run(power_on("fonz", &boards_nick())).unwrap();
    assert_eq!(
        on,
        "target=fonz at 1-11:4\nSent power command\nlsusb present=true (want true)\n"
    );
    assert_eq!(bench.log.last().unwrap(), "sleep 4");
    assert!(bench.log.contains(&"-l 1-11 -p 4 -a on".to_string()));
}

#[test]
fn nickname_cycle_with_given_listing_lists_no_hubs() {
    let mut bench = Bench::new("1366:1024");
    bench.listing = None;
    let report = bench.run(power_cycle_with("fonz", 2, &boards_nick(), Some(LISTING))).unwrap();
    assert!(report.starts_with("target=fonz (1366:1024) at 1-11:4 ["), "{report}");
    assert_eq!(
        bench.log,
        vec![
            "remember fonz 1-11:4".to_string(),
            "-l 1-11 -p 4 -a off".to_string(),
            "sleep 2".to_string(),
            "-l 1-11 -p 4 -a on".to_string(),
            "sleep 4".to_string(),
        ]
    );
}

#[test]
fn place_is_remembered_before_the_off_switch() {
    let mut bench = Bench::new("");
    bench.run(power_off("apollo510b", &boards())).unwrap();
    let remember = bench.log.iter().position(|l| l == "remember apollo510b 1-11:4").unwrap();
    let off = bench.log.iter().position(|l| l == "-l 1-11 -p 4 -a off").unwrap();
    assert_eq!(off, remember + 1);
}

#[test]
fn unlocated_target_is_never_switched() {
    let mut bench = Bench::new("");
    bench.listing = Some("Current status for hub 1-11 [hub]\n  Port 4: 0000 off\n");
    let err = bench.run(power_cycle_with("apollo510b", 3, &boards(), None)).unwrap_err();
    assert!(matches!(err, HubError::NoPortMatch(_, _)), "{err:?}");
    assert_eq!(bench.log, vec![String::new()]);
    let err = bench.run(power_off("apollo510b", &boards())).unwrap_err();
    assert!(matches!(err, HubError::NoPortMatch(_, _)), "{err:?}");
    assert_eq!(bench.log, vec![String::new(), String::new()]);
}

#[test]
fn status_never_switches_power() {
    let mut bench = Bench::new("1366:1024");
    bench.run(usb_status("fonz", &boards_nick())).unwrap();
    bench.run(usb_status("apollo510b", &boards())).unwrap();
    bench.run(usb_status("sniffer", &boards())).unwrap();
    assert!(bench.log.iter().all(|l| l.is_empty()), "{:?}", bench.log);
}
