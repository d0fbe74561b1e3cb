//! The capture log: every synthesized exchange, its text forms, and the
//! magic-packet trigger.

use crate::addr::{addr_text, push_addr, SockAddr};
use crate::text::{bytes_text, push_bytes};
use vstd::prelude::*;
use vstd::string::StringExecFns;

verus! {

/// Where a packet went and what it carried.
#[derive(Clone, Debug)]
pub struct PacketMeta {
    addr: SockAddr,
    payload: Vec<u8>,
}

/// A packet of the capture log: `Inbound` was delivered to the target
/// process, `Outbound` was sent by it.
#[derive(Clone, Debug)]
pub enum Packet {
    Inbound(PacketMeta),
    Outbound(PacketMeta),
}

/// The content of a packet: its direction, the peer address and the payload.
pub struct PacketModel {
    pub inbound: bool,
    pub addr: SockAddr,
    pub payload: Seq<u8>,
}

impl View for Packet {
    type V = PacketModel;

    closed spec fn view(&self) -> PacketModel {
        match self {
            Packet::Inbound(m) => PacketModel { inbound: true, addr: m.addr, payload: m.payload@ },
            Packet::Outbound(m) => PacketModel { inbound: false, addr: m.addr, payload: m.payload@ },
        }
    }
}

/// The payload whose arrival ends the run.
pub open spec fn magic_payload() -> Seq<u8> {
    seq![87u8, 111u8, 114u8, 108u8, 100u8]
}

/// An inbound packet carrying exactly the magic payload.
pub open spec fn is_magic(p: PacketModel) -> bool {
    p.inbound && p.payload == magic_payload()
}

/// The tabular row of a packet: source, destination, payload.
pub open spec fn csv_line(p: PacketModel) -> Seq<char> {
    if p.inbound {
        addr_text(p.addr) + seq![',', 's', 'e', 'l', 'f', ','] + bytes_text(p.payload) + seq!['\n']
    } else {
        seq!['s', 'e', 'l', 'f', ','] + addr_text(p.addr) + seq![','] + bytes_text(p.payload) + seq!['\n']
    }
}

/// The human-readable line of a packet: `src -> dst payload`.
pub open spec fn human_line(p: PacketModel) -> Seq<char> {
    if p.inbound {
        addr_text(p.addr) + seq![' ', '-', '>', ' ', 's', 'e', 'l', 'f', ' '] + bytes_text(p.payload)
            + seq!['\n']
    } else {
        seq!['s', 'e', 'l', 'f', ' ', '-', '>', ' '] + addr_text(p.addr) + seq![' '] + bytes_text(
            p.payload,
        ) + seq!['\n']
    }
}

impl Packet {
    /// A packet delivered to the target process from `src`.
    pub fn inbound(src: SockAddr, payload: Vec<u8>) -> (r: Packet)
        ensures
            r@ == (PacketModel { inbound: true, addr: src, payload: payload@ }),
    {
        Packet::Inbound(PacketMeta { addr: src, payload })
    }

    /// A packet sent by the target process to `dst`.
    pub fn outbound(dst: SockAddr, payload: Vec<u8>) -> (r: Packet)
        ensures
            r@ == (PacketModel { inbound: false, addr: dst, payload: payload@ }),
    {
        Packet::Outbound(PacketMeta { addr: dst, payload })
    }

    /// The packet as a row of the tabular dump.
    pub fn to_csv(&self) -> (r: String)
        ensures
            r@ == csv_line(self@),
    {
        let mut s = String::new();
        push_csv(&mut s, self);
        assert(s@ =~= csv_line(self@));
        s
    }

    /// The packet as a line of the human-readable dump.
    pub fn to_string(&self) -> (r: String)
        ensures
            r@ == human_line(self@),
    {
        let mut s = String::new();
        push_human(&mut s, self);
        assert(s@ =~= human_line(self@));
        s
    }
}

fn push_csv(s: &mut String, p: &Packet)
    ensures
        final(s)@ == old(s)@ + csv_line(p@),
{
    proof {
        reveal_strlit(",self,");
        reveal_strlit("self,");
        reveal_strlit(",");
        reveal_strlit("\n");
    }
    match p {
        Packet::Inbound(m) => {
            push_addr(s, &m.addr);
            s.append(",self,");
            push_bytes(s, m.payload.as_slice());
        },
        Packet::Outbound(m) => {
            s.append("self,");
            push_addr(s, &m.addr);
            s.append(",");
            push_bytes(s, m.payload.as_slice());
        },
    }
    s.append("\n");
    assert(s@ =~= old(s)@ + csv_line(p@));
}

fn push_human(s: &mut String, p: &Packet)
    ensures
        final(s)@ == old(s)@ + human_line(p@),
{
    proof {
        reveal_strlit(" -> self ");
        reveal_strlit("self -> ");
        reveal_strlit(" ");
        reveal_strlit("\n");
    }
    match p {
        Packet::Inbound(m) => {
            push_addr(s, &m.addr);
            s.append(" -> self ");
            push_bytes(s, m.payload.as_slice());
        },
        Packet::Outbound(m) => {
            s.append("self -> ");
            push_addr(s, &m.addr);
            s.append(" ");
            push_bytes(s, m.payload.as_slice());
        },
    }
    s.append("\n");
    assert(s@ =~= old(s)@ + human_line(p@));
}

/// Whether `pkt` is the magic packet that ends the run.
fn is_magic_pkt(pkt: &Packet) -> (r: bool)
    ensures
        r == is_magic(pkt@),
{
    if let Packet::Inbound(m) = pkt {
        let p = &m.payload;
        let r = p.len() == 5 && p[0] == 87 && p[1] == 111 && p[2] == 114 && p[3] == 108 && p[4] == 100;
        assert(r ==> p@ =~= magic_payload());
        return r;
    }
    false
}

/// The two serializations of the capture log.
#[derive(Clone, Copy, Debug, PartialEq, Eq)]
pub enum DumpFormat {
    CSV,
    HumanReadable,
}

/// The in-memory capture log, in order of arrival.
pub struct PacketLog {
    packets: Vec<Packet>,
}

impl View for PacketLog {
    type V = Seq<PacketModel>;

    closed spec fn view(&self) -> Seq<PacketModel> {
        self.packets@.map_values(|p: Packet| p@)
    }
}

impl PacketLog {
    /// An empty log.
    pub fn new() -> (r: PacketLog)
        ensures
            r@ == Seq::<PacketModel>::empty(),
    {
        let r = PacketLog { packets: Vec::new() };
        assert(r@ =~= Seq::<PacketModel>::empty());
        r
    }

    /// Number of packets in the log.
    pub fn len(&self) -> (r: usize)
        ensures
            r == self@.len(),
    {
        self.packets.len()
    }

    /// The packet at position `i`.
    pub fn get(&self, i: usize) -> (r: &Packet)
        requires
            i < self@.len(),
        ensures
            r@ == self@[i as int],
    {
        &self.packets[i]
    }
}

/// What the caller of `push` must do next.
#[derive(Clone, Copy, Debug, PartialEq, Eq)]
pub enum PushOutcome {
    /// The packet was logged; carry on.
    Stored,
    /// The magic packet was logged: dump the log and abort the process.
    Terminate,
}

/// Appends `pkt` to the log, and tells whether it is the magic packet that
/// ends the run. The packet is logged in either case.
pub fn push(log: &mut PacketLog, pkt: Packet) -> (r: PushOutcome)
    ensures
        final(log)@ == old(log)@.push(pkt@),
        r == (if is_magic(pkt@) {
            PushOutcome::Terminate
        } else {
            PushOutcome::Stored
        }),
{
    let magic = is_magic_pkt(&pkt);
    let ghost v = pkt@;
    log.packets.push(pkt);
    assert(log@ =~= old(log)@.push(v));
    if magic {
        PushOutcome::Terminate
    } else {
        PushOutcome::Stored
    }
}

/// The header line of the tabular dump.
pub open spec fn csv_header() -> Seq<char> {
    seq!['s', 'r', 'c', ',', 'd', 's', 't', ',', 'p', 'a', 'y', 'l', 'o', 'a', 'd', '\n']
}

/// The lines of the packets of `log`, in order.
pub open spec fn rows(log: Seq<PacketModel>, fmt: DumpFormat) -> Seq<char>
    decreases log.len(),
{
    if log.len() == 0 {
        seq![]
    } else {
        rows(log.drop_last(), fmt) + match fmt {
            DumpFormat::CSV => csv_line(log.last()),
            DumpFormat::HumanReadable => human_line(log.last()),
        }
    }
}

/// What a dump appends to the output file: in the tabular format, a header
/// line when the file does not exist yet, then one line per packet.
pub open spec fn dump_text(log: Seq<PacketModel>, fmt: DumpFormat, file_exists: bool) -> Seq<char> {
    (if fmt == DumpFormat::CSV && !file_exists {
        csv_header()
    } else {
        seq![]
    }) + rows(log, fmt)
}

/// The text a dump of the whole log in format `dump_fmt` appends to the
/// output file; `file_exists` tells whether that file is there already.
/// The log itself is left as it is.
pub fn dump(log: &PacketLog, dump_fmt: DumpFormat, file_exists: bool) -> (r: String)
    ensures
        r@ == dump_text(log@, dump_fmt, file_exists),
{
    let mut s = String::new();
    proof {
        reveal_strlit("src,dst,payload\n");
    }
    if !file_exists {
        if let DumpFormat::CSV = dump_fmt {
            s.append("src,dst,payload\n");
        }
    }
    let ghost start = s@;
    let mut i: usize = 0;
    while i < log.packets.len()
        invariant
            i <= log@.len(),
            log@.len() == log.packets@.len(),
            s@ == start + rows(log@.take(i as int), dump_fmt),
        decreases log@.len() - i,
    {
        let pkt = &log.packets[i];
        assert(pkt@ == log@[i as int]);
        match dump_fmt {
            DumpFormat::HumanReadable => push_human(&mut s, pkt),
            DumpFormat::CSV => push_csv(&mut s, pkt),
        }
        assert(log@.take(i + 1).drop_last() =~= log@.take(i as int));
        assert(s@ =~= start + rows(log@.take(i + 1), dump_fmt));
        i = i + 1;
    }
    assert(log@.take(log@.len() as int) =~= log@);
    assert(s@ =~= dump_text(log@, dump_fmt, file_exists));
    s
}

/// The rows of two logs one after the other are the rows of the first, then
/// those of the second.
pub proof fn lemma_rows_concat(a: Seq<PacketModel>, b: Seq<PacketModel>, fmt: DumpFormat)
    ensures
        rows(a + b, fmt) == rows(a, fmt) + rows(b, fmt),
    decreases b.len(),
{
    if b.len() == 0 {
        assert(a + b =~= a);
        assert(rows(a, fmt) + rows(b, fmt) =~= rows(a, fmt));
    } else {
        lemma_rows_concat(a, b.drop_last(), fmt);
        assert((a + b).drop_last() =~= a + b.drop_last());
        assert((a + b).last() == b.last());
        assert(rows(a + b, fmt) =~= rows(a, fmt) + rows(b, fmt));
    }
}

/// Dumping the log twice without clearing it appends every row a second time:
/// the file then holds what a single dump of the log repeated twice would write.
pub proof fn lemma_dump_twice(log: Seq<PacketModel>, fmt: DumpFormat, file_exists: bool)
    ensures
        dump_text(log, fmt, file_exists) + dump_text(log, fmt, true) == dump_text(
            log + log,
            fmt,
            file_exists,
        ),
{
    lemma_rows_concat(log, log, fmt);
    assert(dump_text(log, fmt, file_exists) + dump_text(log, fmt, true) =~= dump_text(
        log + log,
        fmt,
        file_exists,
    ));
}

} // verus!
