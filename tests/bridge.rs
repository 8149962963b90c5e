use pf_rs::bridge::bindings::{pfr_addr, pfr_table, AF_INET, AF_INET6, DIOCRADDADDRS, DIOCRCLRADDRS, DIOCRDELADDRS, DIOCRGETADDRS, PFR_ADDR_SIZE};
use pf_rs::{IpAddr, PfError, PfIocCommand, PfIocTable, PfrAddr, PfrTable, Translate};

#[test]
fn test_pfioc_table() -> Result<(), PfError> {
    let mut io = PfIocTable::new();

    io.table = PfrTable::new();
    io.table.name = "my_table".to_string();

    io.buffer.push(PfrAddr::new());

    let mut io_c = io.translate()?;
    assert_eq!(io_c.pfrio_size, 1);

    // What the kernel would change
    io_c.pfrio_size = 2;

    io.update(io_c)?;
    assert_eq!(io.size, 2);

    Ok(())
}

#[test]
fn ipv4_is_stored_in_network_order() {
    let a = PfrAddr::from_addr(IpAddr::V4(0x0a00_0001), 32);
    let c = a.translate().unwrap();
    assert_eq!(c.pfra_af, AF_INET);
    assert_eq!(c.pfra_u, [10, 0, 0, 1, 0, 0, 0, 0, 0, 0, 0, 0, 0, 0, 0, 0]);
    assert_eq!(c.pfra_net, 32);
    assert_eq!(c.pfra_ifname, [0u8; 16]);
}

#[test]
fn ipv6_is_stored_in_network_order() {
    let v: u128 = 0x2001_0db8_0000_0000_0000_0000_0000_0001;
    let c = PfrAddr::from_addr(IpAddr::V6(v), 64).translate().unwrap();
    assert_eq!(c.pfra_af, AF_INET6);
    assert_eq!(c.pfra_u, [0x20, 0x01, 0x0d, 0xb8, 0, 0, 0, 0, 0, 0, 0, 0, 0, 0, 0, 1]);
    assert_eq!(c.pfra_net, 64);
}

#[test]
fn entry_round_trips_through_fixed_layout() {
    let a = PfrAddr { addr: IpAddr::V6(1), ifname: "em0".to_string(), subnet: 128 };
    let c = a.translate().unwrap();
    assert_eq!(&c.pfra_ifname[..4], b"em0\0");
    let mut b = PfrAddr::new();
    b.update(c).unwrap();
    assert_eq!(b, a);
}

#[test]
fn fixed_layout_entry_round_trips_through_entry() {
    let mut c = pfr_addr::init();
    c.pfra_af = AF_INET;
    c.pfra_u[..4].copy_from_slice(&[192, 168, 1, 7]);
    c.pfra_ifname[..4].copy_from_slice(b"vio0");
    c.pfra_net = 24;
    let mut a = PfrAddr::new();
    a.update(c).unwrap();
    assert_eq!(a.addr, IpAddr::V4(0xc0a8_0107));
    assert_eq!(a.ifname, "vio0");
    let back = a.translate().unwrap();
    assert_eq!(back.pfra_u, c.pfra_u);
    assert_eq!(back.pfra_ifname, c.pfra_ifname);
    assert_eq!(back.pfra_af, c.pfra_af);
    assert_eq!(back.pfra_net, c.pfra_net);
}

#[test]
fn interface_name_at_capacity_fails() {
    let mut a = PfrAddr::new();
    a.ifname = "abcdefghijklmnop".to_string();
    assert_eq!(a.ifname.len(), 16);
    assert!(matches!(a.translate(), Err(PfError::TranslationError)));
}

#[test]
fn interface_name_one_below_capacity_succeeds() {
    let mut a = PfrAddr::new();
    a.ifname = "abcdefghijklmno".to_string();
    let c = a.translate().unwrap();
    assert_eq!(&c.pfra_ifname[..15], b"abcdefghijklmno");
    assert_eq!(c.pfra_ifname[15], 0);
}

#[test]
fn unknown_address_family_fails() {
    let mut c = pfr_addr::init();
    c.pfra_af = 7;
    let mut a = PfrAddr::new();
    assert!(matches!(a.update(c), Err(PfError::UnknownAddressFamily)));
    assert_eq!(a, PfrAddr::new());
    assert!(matches!(pfr_addr::init().ip(), Err(PfError::UnknownAddressFamily)));
}

#[test]
fn interface_name_not_utf8_fails() {
    let mut c = pfr_addr::init();
    c.pfra_af = AF_INET;
    c.pfra_ifname[0] = 0xff;
    let mut a = PfrAddr::new();
    assert!(matches!(a.update(c), Err(PfError::TranslationError)));
}

#[test]
fn only_trailing_zeros_are_trimmed() {
    let mut c = pfr_addr::init();
    c.pfra_af = AF_INET;
    c.pfra_ifname[..3].copy_from_slice(&[b'a', 0, b'b']);
    let mut a = PfrAddr::new();
    a.update(c).unwrap();
    assert_eq!(a.ifname, "a\0b");
}

#[test]
fn table_name_not_utf8_fails() {
    let mut c = pfr_table::init();
    c.pfrt_name[..3].copy_from_slice(&[b'a', 0xc3, 0x28]);
    let mut t = PfrTable::new();
    assert!(matches!(t.update(c), Err(PfError::TranslationError)));
    assert_eq!(t, PfrTable::new());
}

#[test]
fn five_character_table_name_round_trips() {
    let c = pfr_table::new("webby").unwrap();
    let mut t = PfrTable::new();
    t.update(c).unwrap();
    assert_eq!(t.name, "webby");
    assert_eq!(t.anchor, "");
}

#[test]
fn table_descriptor_fields_are_checked() {
    assert!(matches!(pfr_table::new(&"t".repeat(32)), Err(PfError::TableNameTooLong)));
    assert!(pfr_table::new(&"t".repeat(31)).is_ok());
    let t = PfrTable { anchor: "a".repeat(1024), name: "t".to_string() };
    assert!(matches!(t.translate(), Err(PfError::TranslationError)));
    let t = PfrTable { anchor: "a/b".to_string(), name: "t".repeat(32) };
    assert!(matches!(t.translate(), Err(PfError::TranslationError)));
    let c = PfrTable { anchor: "a/b".to_string(), name: "t".to_string() }.translate().unwrap();
    assert_eq!(&c.pfrt_anchor[..4], b"a/b\0");
    assert_eq!(&c.pfrt_name[..2], b"t\0");
}

#[test]
fn command_codes() {
    assert_eq!(PfIocCommand::ClrAddrs.code().unwrap(), DIOCRCLRADDRS);
    assert_eq!(PfIocCommand::AddAddrs.code().unwrap(), DIOCRADDADDRS);
    assert_eq!(PfIocCommand::DelAddrs.code().unwrap(), DIOCRDELADDRS);
    assert_eq!(PfIocCommand::GetAddrs.code().unwrap(), DIOCRGETADDRS);
    assert_eq!(DIOCRGETADDRS, 3293594694);
}

#[test]
fn entry_size_only_for_buffer_commands() {
    let io = PfIocTable::with_table("t");
    let (env, code) = io.prepare(PfIocCommand::ClrAddrs).unwrap();
    assert_eq!(env.pfrio_esize, 0);
    assert_eq!(code, DIOCRCLRADDRS);
    let (env, code) = io.prepare(PfIocCommand::GetAddrs).unwrap();
    assert_eq!(env.pfrio_esize, PFR_ADDR_SIZE as i32);
    assert_eq!(code, DIOCRGETADDRS);
    assert_eq!(PFR_ADDR_SIZE, 52);
}

#[test]
fn failed_call_keeps_state_and_reports_code() {
    let mut io = PfIocTable::with_table("t");
    io.buffer.push(PfrAddr::new());
    let (mut env, _) = io.prepare(PfIocCommand::AddAddrs).unwrap();
    env.pfrio_nadd = 1;
    assert!(matches!(io.finish(env, -1, 13), Err(PfError::IoctlError(13))));
    assert_eq!(io.added, 0);
    assert_eq!(io.buffer, vec![PfrAddr::new()]);
}

#[test]
fn reply_with_bad_entry_keeps_state() {
    let mut io = PfIocTable::with_table("t");
    io.buffer.push(PfrAddr::new());
    let (mut env, _) = io.prepare(PfIocCommand::GetAddrs).unwrap();
    env.pfrio_buffer[0].pfra_af = 0;
    env.pfrio_size = 5;
    assert!(matches!(io.finish(env, 0, 0), Err(PfError::UnknownAddressFamily)));
    assert_eq!(io.size, 0);
    assert_eq!(io.buffer, vec![PfrAddr::new()]);
}

#[test]
fn negative_count_fails() {
    let mut io = PfIocTable::with_table("t");
    let (mut env, _) = io.prepare(PfIocCommand::GetAddrs).unwrap();
    env.pfrio_size = -1;
    assert!(matches!(io.finish(env, 0, 0), Err(PfError::TranslationError)));
}
