use mcp_uhubctl::hub::{
    CycleArgs, jlink_nicknames_report, usb_serial_form_exec,
    attached_vidpid, boards_from_entries, check_jlink_nickname, find_device,
    jlink_serial_for_nickname_with, lsusb_reports_device, materialize_target, parse_emu_list,
    recall_location, remember_location, resolve_target_with, set_power_with, short_name_vidpid,
    uhubctl_outcome, verify_id, BoardEntry, Boards, HubError, ResolvedTarget,
};

const LISTING: &str = "\
Current status for hub 1-11 [2109:2817 VIA Labs, Inc. USB2.0 Hub, USB 2.10, 4 ports, ppps]
  Port 1: 0103 power enable connect [1915:c00a Nordic Semiconductor PPK2 D4184E334B85]
  Port 2: 0100 power
  Port 3: 0507 power highspeed suspend enable connect [2109:2817 VIA Labs, Inc. USB2.0 Hub, USB 2.10, 4 ports, ppps]
  Port 4: 1103 power indicator enable connect [1366:1024 SEGGER J-Link_Apollo510B_r2.0 001160002965]
Current status for hub 1-12 [2109:2817 VIA Labs, Inc. USB2.0 Hub, USB 2.10, 4 ports, ppps]
  Port 1: 0103 power enable connect [1366:1024 SEGGER J-Link 001160003881]
  Port 2: 0103 power enable connect [1915:c00a Nordic Semiconductor PPK2 AABBCCDDEEFF]
";

const EMU_LIST: &str = "\
J-Link Command File read successfully.
Processing script file...
J-Link>ShowEmuList
J-Link[0]: Connection: USB, Serial number: 1160002965, ProductName: J-Link-OB-Test, Nickname: apollo510b
J-Link[1]: Connection: USB, Serial number: 1160003881, ProductName: J-Link-OB-Apollo4-CortexM, Nickname: <not set>
J-Link>Exit
Script processing completed.";

fn entry(vidpid: &str, serial: Option<&str>, nick: Option<&str>) -> BoardEntry {
    BoardEntry {
        vidpid: vidpid.to_string(),
        serial: serial.map(|s| s.to_string()),
        jlink_nickname: nick.map(|s| s.to_string()),
    }
}

#[test]
fn find_unique_by_vidpid() {
    let f = find_device(LISTING, "1915:522a", None);
    assert!(f.is_err()); // sniffer absent
    // PPK2 vidpid alone is ambiguous here (two PPK2s) — must fail, not guess.
    assert!(find_device(LISTING, "1915:c00a", None).is_err());
}

#[test]
fn find_by_vidpid_plus_serial() {
    let f = find_device(LISTING, "1915:c00a", Some("d4184e334b85")).unwrap();
    assert_eq!((f.location.as_str(), f.port.as_str()), ("1-11", "1"));
    let g = find_device(LISTING, "1366:1024", Some("001160003881")).unwrap();
    assert_eq!((g.location.as_str(), g.port.as_str()), ("1-12", "1"));
}

#[test]
fn find_by_serial_only() {
    assert!(find_device("", "", None).is_err());
    let _ = find_device(LISTING, "", Some("001160002965")).unwrap();
}

#[test]
fn bracket_scoping_avoids_hub_text() {
    // "2109:2817" appears in hub descs AND attached descs; attached-only
    // matching must still locate the downstream hub port.
    let f = find_device(LISTING, "2109:2817", None).unwrap();
    assert_eq!((f.location.as_str(), f.port.as_str()), ("1-11", "3"));
}

#[test]
fn resolve_order_nickname_short_serial() {
    let mut boards = Boards::new();
    boards.insert(
        "apollo510b".to_string(),
        entry("1366:1024", Some("001160002965"), None),
    );
    let r = resolve_target_with("apollo510b", &boards).unwrap();
    assert_eq!(r.serial.as_deref(), Some("001160002965"));
    let r = resolve_target_with("PPK2", &boards).unwrap();
    assert_eq!(r.vidpid, "1915:c00a");
    assert!(r.serial.is_none());
    let r = resolve_target_with("001160003881", &boards).unwrap();
    assert_eq!(r.serial.as_deref(), Some("001160003881"));
    assert!(resolve_target_with("nope!", &boards).is_err());
}

#[test]
fn attached_vidpid_parses_bracket() {
    assert_eq!(
        attached_vidpid(
            "Port 4: 1103 power indicator enable connect [1366:1024 SEGGER J-Link 001160003881]"
        )
        .as_deref(),
        Some("1366:1024")
    );
    assert_eq!(attached_vidpid("Port 2: 0100 power"), None);
}

#[test]
fn parse_emu_list_reads_nicknames() {
    let emus = parse_emu_list(EMU_LIST);
    assert_eq!(emus.len(), 2);
    assert_eq!(emus[0].serial, "1160002965");
    assert_eq!(emus[0].nickname.as_deref(), Some("apollo510b"));
    assert_eq!(emus[1].nickname, None);
}

#[test]
fn nickname_serial_matches_zero_padded_usb() {
    // JLinkExe strips leading zeros; USB keeps them. Substring matching
    // must bridge both directions.
    assert!("001160003881".contains("1160003881"));
    let f = find_device(LISTING, "1366:1024", Some("1160003881")).unwrap();
    assert_eq!(f.port.as_str(), "1");
}

// ---------------------------------------------------------------------

#[test]
fn find_reports_all_fields_of_the_hit() {
    let f = find_device(LISTING, "1366:1024", Some("001160002965")).unwrap();
    assert_eq!(f.location, "1-11");
    assert_eq!(f.port, "4");
    assert_eq!(
        f.hub_desc,
        "[2109:2817 VIA Labs, Inc. USB2.0 Hub, USB 2.10, 4 ports, ppps]"
    );
    assert_eq!(
        f.port_line,
        "Port 4: 1103 power indicator enable connect [1366:1024 SEGGER J-Link_Apollo510B_r2.0 001160002965]"
    );
}

#[test]
fn find_is_case_insensitive_in_selectors() {
    let f = find_device(LISTING, "1915:C00A", Some("AABBCCDDEEFF")).unwrap();
    assert_eq!((f.location.as_str(), f.port.as_str()), ("1-12", "2"));
}

#[test]
fn find_ambiguity_lists_candidates() {
    let err = find_device(LISTING, "1915:c00a", None).unwrap_err();
    match &err {
        HubError::AmbiguousPort(hits) => {
            assert_eq!(hits.len(), 2);
            assert_eq!(hits[0].location, "1-11");
            assert_eq!(hits[1].location, "1-12");
        }
        other => panic!("unexpected {other:?}"),
    }
    let m = err.message();
    assert!(m.starts_with("ambiguous match (1-11:1 [Port 1: "));
    assert!(m.contains("; 1-12:2 [Port 2: "));
    assert!(m.ends_with(") — use a nickname or fuller serial"));
}

#[test]
fn find_missing_message() {
    let err = find_device(LISTING, "1915:522a", None).unwrap_err();
    assert_eq!(
        err.message(),
        "no port matches vidpid=\"1915:522a\" serial=None"
    );
    let err = find_device(LISTING, "", Some("zz\"9")).unwrap_err();
    assert_eq!(
        err.message(),
        "no port matches vidpid=\"\" serial=Some(\"zz\\\"9\")"
    );
}

#[test]
fn find_new_status_header_and_crlf() {
    let listing = "New status for hub 2-1 [desc]\r\n  Port 3: 0203 power [1915:522A sniffer X]\r\n";
    let f = find_device(listing, "1915:522a", None).unwrap();
    assert_eq!((f.location.as_str(), f.port.as_str()), ("2-1", "3"));
    assert_eq!(f.hub_desc, "[desc]");
}

#[test]
fn header_without_description() {
    let listing = "Current status for hub 3-4\n Port 2: x [1366:1024 a]\n";
    let f = find_device(listing, "1366:1024", None).unwrap();
    assert_eq!(f.location, "3-4");
    assert_eq!(f.hub_desc, "");
}

#[test]
fn short_names() {
    assert_eq!(short_name_vidpid("ppk2"), Some("1915:c00a"));
    assert_eq!(short_name_vidpid("segger"), Some("1366:1024"));
    assert_eq!(short_name_vidpid("apollo510b"), Some("1366:1024"));
    assert_eq!(short_name_vidpid("nrf-sniffer"), Some("1915:522a"));
    assert_eq!(short_name_vidpid("PPK2"), None);
}

#[test]
fn resolve_details() {
    let boards = Boards::new();
    let r = resolve_target_with("  Jlink \n", &boards).unwrap();
    assert_eq!(r.key, "jlink");
    assert_eq!(r.vidpid, "1366:1024");
    let r = resolve_target_with(" D4184E334B85 ", &boards).unwrap();
    assert_eq!(r.key, "serial:D4184E334B85");
    assert_eq!(r.vidpid, "");
    assert_eq!(r.serial.as_deref(), Some("D4184E334B85"));
    match resolve_target_with("   ", &boards).unwrap_err() {
        HubError::EmptyTarget => {}
        other => panic!("unexpected {other:?}"),
    }
    let err = resolve_target_with("abc", &boards).unwrap_err();
    assert_eq!(
        err.message(),
        "unknown target \"abc\" — use a boards.json nickname, ppk2/jlink/sniffer, or a USB serial substring (see usb_targets)"
    );
}

#[test]
fn nickname_overrides_short_name() {
    let mut boards = Boards::new();
    boards.insert("ppk2".to_string(), entry("1915:C00A", Some("AABB"), None));
    let r = resolve_target_with("PPK2", &boards).unwrap();
    assert_eq!(r.key, "ppk2");
    assert_eq!(r.vidpid, "1915:c00a");
    assert_eq!(r.serial.as_deref(), Some("AABB"));
}

#[test]
fn boards_replace_and_lookup() {
    let mut boards = Boards::new();
    boards.insert("a".to_string(), entry("1:1", None, None));
    boards.insert("b".to_string(), entry("2:2", None, None));
    boards.insert("a".to_string(), entry("3:3", None, None));
    assert_eq!(boards.get("a").unwrap().vidpid, "3:3");
    assert_eq!(boards.get("b").unwrap().vidpid, "2:2");
    assert!(boards.get("c").is_none());
}

#[test]
fn config_nicknames_are_lower_cased() {
    let b = boards_from_entries(vec![
        ("Apollo".to_string(), entry("1366:1024", Some("1"), None)),
        ("PPK2-Main".to_string(), entry("1915:c00a", None, None)),
        ("APOLLO".to_string(), entry("1366:1024", Some("2"), None)),
    ]);
    assert!(b.get("Apollo").is_none());
    assert_eq!(b.get("apollo").unwrap().serial.as_deref(), Some("2"));
    assert_eq!(b.get("ppk2-main").unwrap().vidpid, "1915:c00a");
    let r = resolve_target_with("Ppk2-MAIN", &b).unwrap();
    assert_eq!(r.key, "ppk2-main");
}

#[test]
fn nickname_checks() {
    assert!(check_jlink_nickname("apollo510b").is_ok());
    match check_jlink_nickname("12345").unwrap_err() {
        HubError::NicknameNumeric(n) => assert_eq!(n, "12345"),
        other => panic!("unexpected {other:?}"),
    }
    assert!(matches!(check_jlink_nickname(""), Err(HubError::NicknameNumeric(_))));
    let long = "a".repeat(33);
    assert!(matches!(check_jlink_nickname(&long), Err(HubError::NicknameTooLong)));
    assert!(check_jlink_nickname(&"a".repeat(32)).is_ok());
    // 11 characters of 3 bytes each: 33 bytes.
    assert!(matches!(check_jlink_nickname(&"€".repeat(11)), Err(HubError::NicknameTooLong)));
    assert!(check_jlink_nickname(&"€".repeat(10)).is_ok());
    assert_eq!(
        check_jlink_nickname("42").unwrap_err().message(),
        "nickname \"42\" is numeric-only — SEGGER tools read that as a serial number; add a letter"
    );
}

#[test]
fn nickname_to_serial() {
    let emus = parse_emu_list(EMU_LIST);
    assert_eq!(
        jlink_serial_for_nickname_with("apollo510b", &emus).unwrap(),
        "001160002965"
    );
    assert_eq!(
        jlink_serial_for_nickname_with("APOLLO510B", &emus).unwrap(),
        "001160002965"
    );
    let err = jlink_serial_for_nickname_with("other", &emus).unwrap_err();
    assert_eq!(
        err.message(),
        "no J-Link carries nickname \"other\"; seen: apollo510b (1160002965), <not set> (1160003881)"
    );
}

#[test]
fn exact_nickname_wins_over_case_folded() {
    let emus = parse_emu_list(
        "Serial number: 111, ProductName: A, Nickname: Board\nSerial number: 222, ProductName: B, Nickname: board\n",
    );
    assert_eq!(jlink_serial_for_nickname_with("board", &emus).unwrap(), "000000000222");
    assert_eq!(jlink_serial_for_nickname_with("BOARD", &emus).unwrap(), "000000000111");
}

#[test]
fn emu_list_edge_lines() {
    let emus = parse_emu_list(
        "Serial number: , ProductName: X\nSerial number: 7\n  Serial number: 9, Nickname:   \n",
    );
    assert_eq!(emus.len(), 2);
    assert_eq!(emus[0].serial, "7");
    assert_eq!(emus[0].product, "");
    assert_eq!(emus[0].nickname, None);
    assert_eq!(emus[1].serial, "9");
    assert_eq!(emus[1].nickname, None);
    assert_eq!(parse_emu_list(EMU_LIST)[1].product, "J-Link-OB-Apollo4-CortexM");
}

#[test]
fn materialize_fills_serial() {
    let emus = parse_emu_list(EMU_LIST);
    let rt = ResolvedTarget {
        key: "fonz".to_string(),
        vidpid: "1366:1024".to_string(),
        serial: None,
        jlink_nickname: Some("apollo510b".to_string()),
    };
    let m = materialize_target(&rt, &emus).unwrap();
    assert_eq!(m.serial.as_deref(), Some("001160002965"));
    assert_eq!(m.key, "fonz");
    let plain = ResolvedTarget { jlink_nickname: None, ..rt.clone() };
    assert_eq!(materialize_target(&plain, &emus).unwrap().serial, None);
}

#[test]
fn verify_id_prefers_vidpid() {
    let f = find_device(LISTING, "", Some("001160003881")).unwrap();
    let rt = ResolvedTarget {
        key: "serial:001160003881".to_string(),
        vidpid: String::new(),
        serial: Some("001160003881".to_string()),
        jlink_nickname: None,
    };
    assert_eq!(verify_id(&rt, &f), "1366:1024");
    let rt2 = ResolvedTarget { vidpid: "abcd:0001".to_string(), ..rt };
    assert_eq!(verify_id(&rt2, &f), "abcd:0001");
}

#[test]
fn uhubctl_failure_message() {
    let ok = uhubctl_outcome("listing\n", "  \n", true).unwrap();
    assert_eq!(ok, "listing\n");
    let ok = uhubctl_outcome("out", " warn \n", true).unwrap();
    assert_eq!(ok, "out\n[stderr]\nwarn");
    let err = uhubctl_outcome("x", "permission denied\n", false).unwrap_err();
    assert_eq!(err.message(), "uhubctl failed:\nx\n[stderr]\npermission denied");
}

#[test]
fn power_args_keep_duality() {
    let args = set_power_with("1-11", "4", "off");
    assert_eq!(args, vec!["-l", "1-11", "-p", "4", "-a", "off"]);
}

#[test]
fn lsusb_presence() {
    assert!(lsusb_reports_device(Some("Bus 001 Device 004: ID 1366:1024 SEGGER J-Link\n")));
    assert!(!lsusb_reports_device(Some(" \n")));
    assert!(!lsusb_reports_device(None));
}

fn spot(l: &str, p: &str, v: &str) -> Option<(String, String, Option<String>)> {
    Some((l.to_string(), p.to_string(), Some(v.to_string())))
}

#[test]
fn last_seen_round_trip() {
    let text = remember_location(None, "Serial:ABC", "1-11", "4", "1366:1024");
    assert_eq!(recall_location(Some(&text), "serial:abc"), spot("1-11", "4", "1366:1024"));
    let text2 = remember_location(Some(&text), "ppk2", "1-12", "2", "1915:c00a");
    assert_eq!(recall_location(Some(&text2), "SERIAL:ABC"), spot("1-11", "4", "1366:1024"));
    assert_eq!(recall_location(Some(&text2), "ppk2"), spot("1-12", "2", "1915:c00a"));
    assert_eq!(recall_location(Some(&text2), "jlink"), None);
    assert_eq!(recall_location(None, "ppk2"), None);
    assert_eq!(recall_location(Some("not json"), "ppk2"), None);
    let text3 = remember_location(Some("not json"), "x", "9", "9", "");
    assert_eq!(recall_location(Some(&text3), "X"), spot("9", "9", ""));
}

#[test]
fn last_seen_keeps_other_members() {
    let text = remember_location(
        Some("{\"other\": 5, \"ppk2\": {\"location\": 1}, \"old\": {\"location\": \"1-2\", \"port\": \"3\"}}"),
        "jlink",
        "1-1",
        "2",
        "1366:1024",
    );
    assert!(text.contains("\"other\":5"));
    assert_eq!(recall_location(Some(&text), "ppk2"), None);
    assert_eq!(recall_location(Some(&text), "jlink"), spot("1-1", "2", "1366:1024"));
    assert_eq!(
        recall_location(Some(&text), "old"),
        Some(("1-2".to_string(), "3".to_string(), None))
    );
}

#[test]
fn usb_serial_is_zero_padded() {
    assert_eq!(usb_serial_form_exec("1160003881"), "001160003881");
    assert_eq!(usb_serial_form_exec("001160003881"), "001160003881");
    assert_eq!(usb_serial_form_exec("12345678901234"), "12345678901234");
    assert_eq!(usb_serial_form_exec(""), "000000000000");
}

#[test]
fn nickname_report() {
    let emus = parse_emu_list(EMU_LIST);
    assert_eq!(
        jlink_nicknames_report(&emus),
        [
            "J-Link probes (JLinkExe ShowEmuList):\n",
            "  1160002965 / J-Link-OB-Test / apollo510b\n",
            "  1160003881 / J-Link-OB-Apollo4-CortexM / <not set>\n",
        ]
        .concat()
    );
    assert_eq!(
        jlink_nicknames_report(&[]),
        "J-Link probes (JLinkExe ShowEmuList):\n  (none)\n"
    );
}

#[test]
fn emu_list_of_joined_texts() {
    let a = "Serial number: 1, Nickname: a\r";
    let b = "junk\nSerial number: 2, ProductName: P\n";
    let joined = format!("{a}\n{b}");
    let mut both = parse_emu_list(a);
    both.extend(parse_emu_list(b));
    assert_eq!(parse_emu_list(&joined), both);
    assert_eq!(both.len(), 2);
}

#[test]
fn cycle_args_default_hold() {
    let a = CycleArgs { target: "ppk2".to_string(), off_seconds: None };
    assert_eq!(a.hold_seconds(), 5);
    let b = CycleArgs { target: "ppk2".to_string(), off_seconds: Some(12) };
    assert_eq!(b.hold_seconds(), 12);
}
