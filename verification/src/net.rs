//! Plain-value model of the network addresses the observer records.
//!
//! The engine only ever stores and compares addresses, so an IP is held
//! as its raw numeric value; the capture layer converts its own address
//! types at the boundary.

use vstd::prelude::*;

verus! {

/// An IPv4 or IPv6 address as a plain numeric value.
#[derive(Clone, Copy, Debug, PartialEq, Eq, Structural)]
pub enum IpAddress {
    V4(u32),
    V6(u128),
}

impl IpAddress {
    /// The IPv4 address `a.b.c.d`.
    pub fn v4(a: u8, b: u8, c: u8, d: u8) -> (r: IpAddress)
        ensures
            r == IpAddress::V4(
                (a * 0x1000000 + b * 0x10000 + c * 0x100 + d) as u32,
            ),
    {
        IpAddress::V4(
            (a as u32) * 0x1000000 + (b as u32) * 0x10000 + (c as u32) * 0x100 + (d as u32),
        )
    }
}

/// One observed IP of a host, with every ingress interface name it was
/// seen on.  Interface names are recorded once each, in order of first
/// sighting.
#[derive(Clone, Debug)]
pub struct IpRecord {
    pub ip: IpAddress,
    pub interfaces: Vec<String>,
}

/// Whether some element of `names` reads `name`.
pub open spec fn spec_contains_name(names: Seq<String>, name: Seq<char>) -> bool {
    exists|i: int| 0 <= i < names.len() && names[i]@ == name
}

/// Whether some record in `records` is for `ip`.
pub open spec fn spec_contains_ip(records: Seq<IpRecord>, ip: IpAddress) -> bool {
    exists|i: int| 0 <= i < records.len() && records[i].ip == ip
}

/// The index of the record for `ip`, assuming one exists.
pub open spec fn spec_ip_index(records: Seq<IpRecord>, ip: IpAddress) -> int {
    choose|i: int| 0 <= i < records.len() && records[i].ip == ip
}

/// Each IP appears in at most one record.
pub open spec fn spec_ips_unique(records: Seq<IpRecord>) -> bool {
    forall|i: int, j: int|
        0 <= i < j < records.len() ==> records[i].ip != records[j].ip
}

/// `post` is `pre` after recording a sighting of `ip` on the interface
/// named `name`: a new IP gains a fresh one-interface record at the
/// end; a known IP gains the name at the end of its interface set,
/// unless the set already holds it; nothing else changes and nothing is
/// removed.
pub open spec fn spec_ip_recorded(
    pre: Seq<IpRecord>,
    post: Seq<IpRecord>,
    ip: IpAddress,
    name: Seq<char>,
) -> bool {
    if !spec_contains_ip(pre, ip) {
        &&& post.len() == pre.len() + 1
        &&& post.take(pre.len() as int) == pre
        &&& post.last().ip == ip
        &&& post.last().interfaces@.len() == 1
        &&& post.last().interfaces@[0]@ == name
    } else {
        let k = spec_ip_index(pre, ip);
        &&& post.len() == pre.len()
        &&& (forall|j: int| 0 <= j < pre.len() && j != k ==> post[j] == pre[j])
        &&& post[k].ip == ip
        &&& (if spec_contains_name(pre[k].interfaces@, name) {
            post[k].interfaces@ == pre[k].interfaces@
        } else {
            &&& post[k].interfaces@.len() == pre[k].interfaces@.len() + 1
            &&& post[k].interfaces@.take(pre[k].interfaces@.len() as int) == pre[k].interfaces@
            &&& post[k].interfaces@.last()@ == name
        })
    }
}

fn contains_name(names: &Vec<String>, name: &String) -> (r: bool)
    ensures
        r == spec_contains_name(names@, name@),
{
    let mut i: usize = 0;
    while i < names.len()
        invariant
            i <= names@.len(),
            forall|j: int| 0 <= j < i ==> names@[j]@ != name@,
        decreases names@.len() - i,
    {
        if names[i].eq(name) {
            return true;
        }
        i = i + 1;
    }
    false
}

fn find_ip(records: &Vec<IpRecord>, ip: IpAddress) -> (r: Option<usize>)
    ensures
        match r {
            Some(i) => {
                &&& i < records@.len()
                &&& records@[i as int].ip == ip
                &&& forall|j: int| 0 <= j < i ==> records@[j].ip != ip
            },
            None => !spec_contains_ip(records@, ip),
        },
{
    let mut i: usize = 0;
    while i < records.len()
        invariant
            i <= records@.len(),
            forall|j: int| 0 <= j < i ==> records@[j].ip != ip,
        decreases records@.len() - i,
    {
        if records[i].ip == ip {
            return Some(i);
        }
        i = i + 1;
    }
    None
}

/// Adds `interface` to the record set for `ip`: a new IP gets a fresh
/// record holding just this interface; a known IP has the interface
/// appended to its set only if the set does not already hold it.  No IP
/// or interface is ever removed.
pub fn record_ip(records: &mut Vec<IpRecord>, ip: IpAddress, interface: String)
    requires
        spec_ips_unique(old(records)@),
    ensures
        spec_ips_unique(final(records)@),
        spec_contains_ip(final(records)@, ip),
        spec_ip_recorded(old(records)@, final(records)@, ip, interface@),
{
    match find_ip(records, ip) {
        Some(i) => {
            proof {
                assert(spec_contains_ip(records@, ip));
                assert(spec_ip_index(records@, ip) == i) by {
                    let k = spec_ip_index(records@, ip);
                    assert(0 <= k < records@.len() && records@[k].ip == ip);
                    if k < i {
                        assert(records@[k].ip != ip);
                    }
                    if k > i as int {
                        assert(records@[i as int].ip != records@[k].ip);
                    }
                }
            }
            let ghost pre_names = records@[i as int].interfaces@;
            let mut rec = records.remove(i);
            if !contains_name(&rec.interfaces, &interface) {
                rec.interfaces.push(interface);
                proof {
                    assert(rec.interfaces@.take(pre_names.len() as int) =~= pre_names);
                }
            }
            records.insert(i, rec);
            proof {
                assert(records@ =~= old(records)@.update(i as int, records@[i as int]));
                assert(forall|j: int|
                    0 <= j < records@.len() ==> records@[j].ip == old(records)@[j].ip);
            }
        },
        None => {
            let mut interfaces: Vec<String> = Vec::new();
            interfaces.push(interface);
            records.push(IpRecord { ip, interfaces });
            proof {
                assert(records@.take(old(records)@.len() as int) =~= old(records)@);
                assert(records@[records@.len() - 1].ip == ip);
            }
        },
    }
}

} // verus!
