use pf_rs::bridge::bindings::{pfioc_table, pfr_addr, DIOCRADDADDRS, DIOCRCLRADDRS, DIOCRDELADDRS, DIOCRGETADDRS};
use pf_rs::{IpAddr, PfError, PfIocCommand, PfIocTable, PfTable, PfrAddr};

/// A table kept in memory that answers requests as the kernel does.
struct Kernel {
    entries: Vec<pfr_addr>,
}

fn same(a: &pfr_addr, b: &pfr_addr) -> bool {
    a.pfra_af == b.pfra_af && a.pfra_u == b.pfra_u && a.pfra_net == b.pfra_net
}

impl Kernel {
    fn call(&mut self, io: &mut pfioc_table, code: u64) -> i32 {
        if code == DIOCRADDADDRS {
            let mut n = 0;
            for a in &io.pfrio_buffer {
                if !self.entries.iter().any(|k| same(k, a)) {
                    self.entries.push(*a);
                    n += 1;
                }
            }
            io.pfrio_nadd = n;
        } else if code == DIOCRDELADDRS {
            let before = self.entries.len();
            let gone = &io.pfrio_buffer;
            self.entries.retain(|k| !gone.iter().any(|a| same(k, a)));
            io.pfrio_ndel = (before - self.entries.len()) as i32;
        } else if code == DIOCRCLRADDRS {
            io.pfrio_ndel = self.entries.len() as i32;
            self.entries.clear();
        } else if code == DIOCRGETADDRS {
            if io.pfrio_size as usize >= self.entries.len() {
                for (i, a) in self.entries.iter().enumerate() {
                    io.pfrio_buffer[i] = *a;
                }
            }
            io.pfrio_size = self.entries.len() as i32;
        } else {
            return -1;
        }
        0
    }

    fn fire(&mut self, io: &mut PfIocTable, cmd: PfIocCommand) -> Result<(), PfError> {
        let (mut env, code) = io.prepare(cmd)?;
        let status = self.call(&mut env, code);
        io.finish(env, status, 0)
    }

    fn get(&mut self, table: &PfTable) -> Result<Vec<PfrAddr>, PfError> {
        let mut io = table.exchange(Vec::new());
        self.fire(&mut io, PfIocCommand::GetAddrs)?;
        let mut filling = false;
        while !io.next_get_round(filling) {
            self.fire(&mut io, PfIocCommand::GetAddrs)?;
            filling = true;
        }
        Ok(io.buffer)
    }

    fn add(&mut self, table: &PfTable, addrs: Vec<PfrAddr>) -> Result<u32, PfError> {
        let mut io = table.exchange(addrs);
        self.fire(&mut io, PfIocCommand::AddAddrs)?;
        Ok(io.added)
    }

    fn del(&mut self, table: &PfTable, addrs: Vec<PfrAddr>) -> Result<u32, PfError> {
        let mut io = table.exchange(addrs);
        self.fire(&mut io, PfIocCommand::DelAddrs)?;
        Ok(io.deleted)
    }

    fn clear(&mut self, table: &PfTable) -> Result<u32, PfError> {
        let mut io = table.exchange(Vec::new());
        self.fire(&mut io, PfIocCommand::ClrAddrs)?;
        Ok(io.deleted)
    }
}

fn host(v: u32) -> PfrAddr {
    PfrAddr::from_addr(IpAddr::V4(v), 32)
}

#[test]
fn add_then_get_returns_entries_in_order() {
    let mut k = Kernel { entries: Vec::new() };
    let t = PfTable::new("my_table");
    assert_eq!(k.add(&t, vec![host(0x0a00_0001), host(0x0a00_0002)]).unwrap(), 2);
    let got = k.get(&t).unwrap();
    assert_eq!(got, vec![host(0x0a00_0001), host(0x0a00_0002)]);
    assert!(got.iter().all(|a| a.subnet == 32));
}

#[test]
fn delete_then_get_returns_the_rest() {
    let mut k = Kernel { entries: Vec::new() };
    let t = PfTable::new("my_table");
    k.add(&t, vec![host(0x0a00_0001), host(0x0a00_0002)]).unwrap();
    assert_eq!(k.del(&t, vec![host(0x0a00_0001)]).unwrap(), 1);
    assert_eq!(k.get(&t).unwrap(), vec![host(0x0a00_0002)]);
}

#[test]
fn clear_then_get_is_empty() {
    let mut k = Kernel { entries: Vec::new() };
    let t = PfTable::new("my_table");
    k.add(&t, vec![host(1), host(2), host(3)]).unwrap();
    let before = k.get(&t).unwrap().len() as u32;
    assert_eq!(k.clear(&t).unwrap(), before);
    assert_eq!(k.get(&t).unwrap(), Vec::<PfrAddr>::new());
}

#[test]
fn add_get_keeps_order_of_three() {
    let mut k = Kernel { entries: Vec::new() };
    let t = PfTable::new("ordered");
    let a = PfrAddr { addr: IpAddr::V6(1), ifname: "lo0".to_string(), subnet: 128 };
    let b = host(0xc0a8_0001);
    let c = PfrAddr::from_addr(IpAddr::V4(0x0a00_0000), 8);
    k.add(&t, vec![a.clone(), b.clone(), c.clone()]).unwrap();
    assert_eq!(k.get(&t).unwrap(), vec![a, b, c]);
}

#[test]
fn get_grows_when_table_grows_between_calls() {
    let mut k = Kernel { entries: Vec::new() };
    let t = PfTable::new("grow");
    k.add(&t, vec![host(1)]).unwrap();
    let mut io = t.exchange(Vec::new());
    k.fire(&mut io, PfIocCommand::GetAddrs).unwrap();
    assert_eq!(io.size, 1);
    assert!(!io.next_get_round(false));
    assert_eq!(io.buffer.len(), 1);
    k.add(&t, vec![host(2)]).unwrap();
    k.fire(&mut io, PfIocCommand::GetAddrs).unwrap();
    assert_eq!(io.size, 2);
    assert!(!io.next_get_round(true));
    assert_eq!(io.buffer, vec![PfrAddr::new(), PfrAddr::new()]);
    k.fire(&mut io, PfIocCommand::GetAddrs).unwrap();
    assert!(io.next_get_round(true));
    assert_eq!(io.buffer, vec![host(1), host(2)]);
}

#[test]
fn get_shrinks_when_table_shrinks_between_calls() {
    let mut k = Kernel { entries: Vec::new() };
    let t = PfTable::new("shrink");
    k.add(&t, vec![host(1), host(2)]).unwrap();
    let mut io = t.exchange(Vec::new());
    k.fire(&mut io, PfIocCommand::GetAddrs).unwrap();
    assert!(!io.next_get_round(false));
    k.del(&t, vec![host(1)]).unwrap();
    k.fire(&mut io, PfIocCommand::GetAddrs).unwrap();
    assert_eq!(io.size, 1);
    assert!(io.next_get_round(true));
    assert_eq!(io.buffer, vec![host(2)]);
}

#[test]
fn empty_table_needs_a_fill_call_too() {
    let mut io = PfTable::new("none").exchange(Vec::new());
    assert!(!io.next_get_round(false));
    assert!(io.buffer.is_empty());
    assert!(io.next_get_round(true));
}

#[test]
fn exchange_names_the_table() {
    let io = PfTable::new("named").exchange(vec![host(5)]);
    assert_eq!(io.table.name, "named");
    assert_eq!(io.table.anchor, "");
    assert_eq!(io.buffer, vec![host(5)]);
}
