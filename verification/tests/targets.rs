use mcp_uhubctl::hub::{power_off, usb_targets_report, Action, BoardEntry, Boards};

const LISTING: &str = "\
Current status for hub 1-11 [2109:2817 VIA Labs, Inc. USB2.0 Hub, USB 2.10, 4 ports, ppps]
  Port 1: 0103 power enable connect [1915:c00a Nordic Semiconductor PPK2 D4184E334B85]
  Port 2: 0100 power
  Port 3: 0507 power highspeed suspend enable connect [2109:2817 VIA Labs, Inc. USB2.0 Hub, USB 2.10, 4 ports, ppps]
  Port 4: 1103 power indicator enable connect [1366:1024 SEGGER J-Link_Apollo510B_r2.0 001160002965]
Current status for hub 1-12 [2109:2817 VIA Labs, Inc. USB2.0 Hub, USB 2.10, 4 ports, ppps]
  Port 1: 0103 power enable connect [1366:1024 SEGGER J-Link 001160003881]
  Port 2: 0103 power enable connect [1915:c00a Nordic Semiconductor PPK2 AABBCCDDEEFF]
";

#[test]
fn targets_lists_sorted_nicknames_and_allowlisted_devices() {
    let mut boards = Boards::new();
    boards.insert(
        "ppk2-main".to_string(),
        BoardEntry { vidpid: "1915:c00a".to_string(), serial: Some("D4184E334B85".to_string()), jlink_nickname: None },
    );
    boards.insert(
        "apollo510b".to_string(),
        BoardEntry { vidpid: "1366:1024".to_string(), serial: None, jlink_nickname: Some("apollo510b".to_string()) },
    );
    boards.insert(
        "apollo-spare".to_string(),
        BoardEntry { vidpid: "1366:1024".to_string(), serial: Some("001160002965".to_string()), jlink_nickname: None },
    );
    let report = usb_targets_report(&boards, LISTING);
    assert_eq!(
        report,
        [
            "nicknames (boards.json):\n",
            "  apollo-spare: 1366:1024 serial=001160002965\n",
            "  apollo510b: 1366:1024 serial=(any)\n",
            "  ppk2-main: 1915:c00a serial=D4184E334B85\n",
            "attached allowlisted devices:\n",
            "  Port 1: 0103 power enable connect [1915:c00a Nordic Semiconductor PPK2 D4184E334B85]\n",
            "  Port 4: 1103 power indicator enable connect [1366:1024 SEGGER J-Link_Apollo510B_r2.0 001160002965]\n",
            "  Port 1: 0103 power enable connect [1366:1024 SEGGER J-Link 001160003881]\n",
            "  Port 2: 0103 power enable connect [1915:c00a Nordic Semiconductor PPK2 AABBCCDDEEFF]\n",
        ]
        .concat()
    );
}

#[test]
fn targets_with_nothing_configured_or_attached() {
    let report = usb_targets_report(&Boards::new(), "Current status for hub 1-1 [keyboard hub]\n  Port 1: 0103 power [046d:c31c Logitech Keyboard]\n");
    assert_eq!(
        report,
        "nicknames (boards.json):\n  (none)\nattached allowlisted devices:\n  (none)\n"
    );
}

#[test]
fn segger_nickname_is_listed_first() {
    let mut boards = Boards::new();
    boards.insert(
        "fonz".to_string(),
        BoardEntry { vidpid: "1366:1024".to_string(), serial: None, jlink_nickname: Some("apollo510b".to_string()) },
    );
    match power_off("fonz", &boards).action() {
        Action::ListProbes => {}
        other => panic!("unexpected {other:?}"),
    }
}
