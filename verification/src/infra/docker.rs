//! Docker container listing: the summary fields that the listing reads, and
//! the container entries made of them.

use vstd::prelude::*;
use crate::text::{decimal, decimal_string, join2, strip_leading, trim_leading};

verus! {

/// A published port of a container.
pub struct PortData {
    pub private_port: u16,
    pub public_port: Option<u16>,
}

/// What the listing reads of a container summary.
pub struct ContainerSummaryData {
    pub names: Option<Vec<String>>,
    pub image: Option<String>,
    pub status: Option<String>,
    pub state: Option<String>,
    pub ports: Option<Vec<PortData>>,
}

/// One container.
pub struct ContainerInfo {
    pub name: String,
    pub image: String,
    pub status: String,
    pub state: String,
    pub ports: Vec<String>,
}

/// `{public}->{private}`.
pub open spec fn port_text(p: PortData) -> Option<Seq<char>> {
    match p.public_port {
        Some(public) => Some(decimal(public as nat) + "->"@ + decimal(p.private_port as nat)),
        None => None,
    }
}

pub open spec fn port_texts(ps: Seq<PortData>) -> Seq<Seq<char>>
    decreases ps.len(),
{
    if ps.len() == 0 {
        seq![]
    } else {
        match port_text(ps.last()) {
            Some(t) => port_texts(ps.drop_last()).push(t),
            None => port_texts(ps.drop_last()),
        }
    }
}

pub open spec fn text_or_empty(s: Option<String>) -> Seq<char> {
    match s {
        Some(x) => x@,
        None => seq![],
    }
}

/// The container name: the first name without its leading slashes, or
/// `unknown`.
pub open spec fn container_name(names: Option<Vec<String>>) -> Seq<char> {
    match names {
        Some(ns) => if ns@.len() > 0 {
            strip_leading(ns@[0]@, '/')
        } else {
            "unknown"@
        },
        None => "unknown"@,
    }
}

fn copy_or_empty(s: &Option<String>) -> (r: String)
    ensures
        r@ == text_or_empty(*s),
{
    match s {
        Some(x) => String::from_str(x.as_str()),
        None => String::new(),
    }
}

/// The published ports of a container, as `{public}->{private}`.
pub fn published_ports(ports: &Vec<PortData>) -> (r: Vec<String>)
    ensures
        r@.map_values(|s: String| s@) == port_texts(ports@),
{
    let mut r: Vec<String> = Vec::new();
    let mut i: usize = 0;
    while i < ports.len()
        invariant
            i <= ports@.len(),
            r@.map_values(|s: String| s@) == port_texts(ports@.take(i as int)),
        decreases ports@.len() - i,
    {
        let p = &ports[i];
        assert(ports@.take(i + 1).drop_last() =~= ports@.take(i as int));
        assert(ports@.take(i + 1).last() == ports@[i as int]);
        match p.public_port {
            Some(public) => {
                let mut t = join2(decimal_string(public as u64).as_str(), "->");
                t.append(decimal_string(p.private_port as u64).as_str());
                let ghost before = r@;
                r.push(t);
                assert(r@.map_values(|s: String| s@) =~= before.map_values(|s: String| s@).push(t@));
            },
            None => {},
        }
        i = i + 1;
    }
    assert(ports@.take(ports@.len() as int) =~= ports@);
    r
}

/// The container entry of a summary; missing fields are empty.
pub fn container_info(c: &ContainerSummaryData) -> (r: ContainerInfo)
    ensures
        r.name@ == container_name(c.names),
        r.image@ == text_or_empty(c.image),
        r.status@ == text_or_empty(c.status),
        r.state@ == text_or_empty(c.state),
        r.ports@.map_values(|s: String| s@) == match c.ports {
            Some(ps) => port_texts(ps@),
            None => seq![],
        },
{
    let name = match &c.names {
        Some(ns) => {
            if ns.len() > 0 {
                trim_leading(ns[0].as_str(), '/')
            } else {
                String::from_str("unknown")
            }
        },
        None => String::from_str("unknown"),
    };
    let ports = match &c.ports {
        Some(ps) => published_ports(ps),
        None => {
            let v: Vec<String> = Vec::new();
            assert(v@.map_values(|s: String| s@) =~= seq![]);
            v
        },
    };
    ContainerInfo {
        name,
        image: copy_or_empty(&c.image),
        status: copy_or_empty(&c.status),
        state: copy_or_empty(&c.state),
        ports,
    }
}

/// Every published port gives the text `{public}->{private}`, with the
/// public port first.
pub proof fn published_ports_complete(ps: Seq<PortData>, j: int)
    requires
        0 <= j < ps.len(),
        ps[j].public_port is Some,
    ensures
        port_texts(ps).contains(decimal(ps[j].public_port.unwrap() as nat) + "->"@ + decimal(ps[j].private_port as nat)),
    decreases ps.len(),
{
    let rest = ps.drop_last();
    let want = decimal(ps[j].public_port.unwrap() as nat) + "->"@ + decimal(ps[j].private_port as nat);
    let prev = port_texts(rest);
    if j == ps.len() - 1 {
        let all = prev.push(want);
        assert(port_texts(ps) == all);
        assert(all[prev.len() as int] == want);
    } else {
        assert(rest[j] == ps[j]);
        published_ports_complete(rest, j);
        let k = choose|k: int| 0 <= k < prev.len() && prev[k] == want;
        match port_text(ps.last()) {
            Some(x) => {
                assert(port_texts(ps) == prev.push(x));
                assert(prev.push(x)[k] == want);
            },
            None => {
                assert(port_texts(ps) == prev);
            },
        }
    }
}

} // verus!
