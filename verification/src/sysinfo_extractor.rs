//! The machine snapshot that a node sends to the database, and its XML
//! form: a `record` element holding the CPUs, the memory, the disks and the
//! network interfaces.

use vstd::prelude::*;
use vstd::utf8::{encode_utf8, valid_utf8, decode_utf8, encode_utf8_valid_utf8, encode_utf8_decode_utf8};
use crate::decimal::{decimal, u64_to_decimal, lemma_decimal_is_digits};
use crate::text::{text_contains, lemma_contains_self, lemma_contains_within, lemma_contains_trans};
use crate::xml::{escape_text, is_plain_char, lemma_escape_plain, lemma_element_of_five, lemma_element_of_four, lemma_element_of_three, empty_element_text, start_tag_text, end_tag_text, attribute_views, write_empty_element, write_start_tag, write_end_tag, lemma_encode_utf8_concat};

verus! {

/// One CPU: its name, its usage as the text the machine reported, and its
/// frequency.
pub struct CpuInfo {
    pub name: String,
    pub usage: String,
    pub frequency: u64,
}

/// Memory and swap, in bytes.
pub struct RamInfo {
    pub total: u64,
    pub used: u64,
    pub total_swap: u64,
    pub used_swap: u64,
}

/// One disk. A name or file system that is not valid Unicode is absent.
pub struct DiskInfo {
    pub name: Option<String>,
    pub kind: String,
    pub file_system: Option<String>,
    pub total_space: u64,
    pub available_space: u64,
}

/// One network interface and its traffic counters.
pub struct NetworkInfo {
    pub interface_name: String,
    pub received: u64,
    pub total_received: u64,
    pub transmitted: u64,
    pub total_transmitted: u64,
}

/// What the machine reported at one moment.
pub struct SystemSnapshot {
    pub cpus: Vec<CpuInfo>,
    pub ram: RamInfo,
    pub disks: Vec<DiskInfo>,
    pub networks: Vec<NetworkInfo>,
}

/// The text of an optional name: the name, or the empty text.
pub open spec fn text_or_empty(o: Option<String>) -> Seq<char> {
    match o {
        Some(s) => s@,
        None => Seq::empty(),
    }
}

/// The `cpu` element of one CPU.
pub open spec fn cpu_text(c: CpuInfo) -> Seq<char> {
    empty_element_text(
        "cpu"@,
        seq![("name"@, c.name@), ("usage"@, c.usage@), ("frequency"@, decimal(c.frequency as nat))],
    )
}

/// The `cpu` elements of all CPUs, in order.
pub open spec fn cpu_list_text(cpus: Seq<CpuInfo>) -> Seq<char>
    decreases cpus.len(),
{
    if cpus.len() == 0 {
        seq![]
    } else {
        cpu_list_text(cpus.drop_last()) + cpu_text(cpus.last())
    }
}

/// The `cpus` element.
pub open spec fn cpus_text(cpus: Seq<CpuInfo>) -> Seq<char> {
    start_tag_text("cpus"@) + cpu_list_text(cpus) + end_tag_text("cpus"@)
}

/// The `ram` element.
pub open spec fn ram_text(r: RamInfo) -> Seq<char> {
    empty_element_text(
        "ram"@,
        seq![
            ("total"@, decimal(r.total as nat)),
            ("used"@, decimal(r.used as nat)),
            ("total_swap"@, decimal(r.total_swap as nat)),
            ("used_swap"@, decimal(r.used_swap as nat)),
        ],
    )
}

/// The `disk` element of one disk.
pub open spec fn disk_text(d: DiskInfo) -> Seq<char> {
    empty_element_text(
        "disk"@,
        seq![
            ("name"@, text_or_empty(d.name)),
            ("kind"@, d.kind@),
            ("file_system"@, text_or_empty(d.file_system)),
            ("total_space"@, decimal(d.total_space as nat)),
            ("available_space"@, decimal(d.available_space as nat)),
        ],
    )
}

/// The `disk` elements of all disks, in order.
pub open spec fn disk_list_text(disks: Seq<DiskInfo>) -> Seq<char>
    decreases disks.len(),
{
    if disks.len() == 0 {
        seq![]
    } else {
        disk_list_text(disks.drop_last()) + disk_text(disks.last())
    }
}

/// The `disks` element.
pub open spec fn disks_text(disks: Seq<DiskInfo>) -> Seq<char> {
    start_tag_text("disks"@) + disk_list_text(disks) + end_tag_text("disks"@)
}

/// The `network` element of one interface.
pub open spec fn network_text(n: NetworkInfo) -> Seq<char> {
    empty_element_text(
        "network"@,
        seq![
            ("name"@, n.interface_name@),
            ("received"@, decimal(n.received as nat)),
            ("total_received"@, decimal(n.total_received as nat)),
            ("transmitted"@, decimal(n.transmitted as nat)),
            ("total_transmitted"@, decimal(n.total_transmitted as nat)),
        ],
    )
}

/// The `network` elements of all interfaces, in order.
pub open spec fn network_list_text(networks: Seq<NetworkInfo>) -> Seq<char>
    decreases networks.len(),
{
    if networks.len() == 0 {
        seq![]
    } else {
        network_list_text(networks.drop_last()) + network_text(networks.last())
    }
}

/// The `networks` element.
pub open spec fn networks_text(networks: Seq<NetworkInfo>) -> Seq<char> {
    start_tag_text("networks"@) + network_list_text(networks) + end_tag_text("networks"@)
}

/// The whole `record` element of a snapshot.
pub open spec fn record_text(s: SystemSnapshot) -> Seq<char> {
    start_tag_text("record"@) + cpus_text(s.cpus@) + ram_text(s.ram) + disks_text(s.disks@)
        + networks_text(s.networks@) + end_tag_text("record"@)
}

/// Appends the encodings of two texts one after the other.
proof fn lemma_append_encoded(before: Seq<u8>, a: Seq<char>, b: Seq<char>)
    ensures
        before + encode_utf8(a) + encode_utf8(b) == before + encode_utf8(a + b),
{
    lemma_encode_utf8_concat(a, b);
    assert(before + encode_utf8(a) + encode_utf8(b) =~= before + (encode_utf8(a) + encode_utf8(b)));
}

/// Writes the `cpus` element.
pub fn write_cpus_info(buf: &mut Vec<u8>, cpus: &Vec<CpuInfo>)
    ensures
        final(buf)@ == old(buf)@ + encode_utf8(cpus_text(cpus@)),
{
    write_start_tag(buf, "cpus");
    let ghost start = buf@;
    proof {
        assert(cpus@.take(0) =~= Seq::<CpuInfo>::empty());
        assert(encode_utf8(Seq::<char>::empty()) =~= Seq::<u8>::empty());
        assert(start + encode_utf8(cpu_list_text(cpus@.take(0))) =~= start);
    }
    let mut i: usize = 0;
    while i < cpus.len()
        invariant
            i <= cpus.len(),
            buf@ == start + encode_utf8(cpu_list_text(cpus@.take(i as int))),
        decreases cpus.len() - i,
    {
        let cpu = &cpus[i];
        let frequency = u64_to_decimal(cpu.frequency);
        let attributes = [("name", cpu.name.as_str()), ("usage", cpu.usage.as_str()), ("frequency", frequency.as_str())];
        write_empty_element(buf, "cpu", &attributes);
        proof {
            assert(attribute_views(attributes@) =~= seq![("name"@, cpu.name@), ("usage"@, cpu.usage@), ("frequency"@, decimal(cpu.frequency as nat))]);
            let prefix = cpus@.take(i as int);
            assert(cpus@.take(i + 1).drop_last() =~= prefix);
            assert(cpus@.take(i + 1).last() == *cpu);
            lemma_append_encoded(start, cpu_list_text(prefix), cpu_text(*cpu));
        }
        i = i + 1;
    }
    write_end_tag(buf, "cpus");
    proof {
        assert(cpus@.take(i as int) =~= cpus@);
        lemma_append_encoded(old(buf)@, start_tag_text("cpus"@), cpu_list_text(cpus@));
        lemma_append_encoded(old(buf)@, start_tag_text("cpus"@) + cpu_list_text(cpus@), end_tag_text("cpus"@));
    }
}


/// Writes the `ram` element.
pub fn write_ram_info(buf: &mut Vec<u8>, ram: &RamInfo)
    ensures
        final(buf)@ == old(buf)@ + encode_utf8(ram_text(*ram)),
{
    let total = u64_to_decimal(ram.total);
    let used = u64_to_decimal(ram.used);
    let total_swap = u64_to_decimal(ram.total_swap);
    let used_swap = u64_to_decimal(ram.used_swap);
    let attributes = [
        ("total", total.as_str()),
        ("used", used.as_str()),
        ("total_swap", total_swap.as_str()),
        ("used_swap", used_swap.as_str()),
    ];
    write_empty_element(buf, "ram", &attributes);
    proof {
        assert(attribute_views(attributes@) =~= seq![
            ("total"@, decimal(ram.total as nat)),
            ("used"@, decimal(ram.used as nat)),
            ("total_swap"@, decimal(ram.total_swap as nat)),
            ("used_swap"@, decimal(ram.used_swap as nat)),
        ]);
    }
}

/// The text of an optional name, or the empty text when it is absent.
pub fn name_or_empty(o: &Option<String>) -> (s: &str)
    ensures
        s@ == text_or_empty(*o),
{
    match o {
        Some(name) => name.as_str(),
        None => {
            proof {
                reveal_strlit("");
            }
            ""
        },
    }
}

/// Writes the `disks` element.
pub fn write_disks_info(buf: &mut Vec<u8>, disks: &Vec<DiskInfo>)
    ensures
        final(buf)@ == old(buf)@ + encode_utf8(disks_text(disks@)),
{
    write_start_tag(buf, "disks");
    let ghost start = buf@;
    proof {
        assert(disks@.take(0) =~= Seq::<DiskInfo>::empty());
        assert(encode_utf8(Seq::<char>::empty()) =~= Seq::<u8>::empty());
        assert(start + encode_utf8(disk_list_text(disks@.take(0))) =~= start);
    }
    let mut i: usize = 0;
    while i < disks.len()
        invariant
            i <= disks.len(),
            buf@ == start + encode_utf8(disk_list_text(disks@.take(i as int))),
        decreases disks.len() - i,
    {
        let disk = &disks[i];
        let total_space = u64_to_decimal(disk.total_space);
        let available_space = u64_to_decimal(disk.available_space);
        let attributes = [
            ("name", name_or_empty(&disk.name)),
            ("kind", disk.kind.as_str()),
            ("file_system", name_or_empty(&disk.file_system)),
            ("total_space", total_space.as_str()),
            ("available_space", available_space.as_str()),
        ];
        write_empty_element(buf, "disk", &attributes);
        proof {
            assert(attribute_views(attributes@) =~= seq![
                ("name"@, text_or_empty(disk.name)),
                ("kind"@, disk.kind@),
                ("file_system"@, text_or_empty(disk.file_system)),
                ("total_space"@, decimal(disk.total_space as nat)),
                ("available_space"@, decimal(disk.available_space as nat)),
            ]);
            let prefix = disks@.take(i as int);
            assert(disks@.take(i + 1).drop_last() =~= prefix);
            assert(disks@.take(i + 1).last() == *disk);
            lemma_append_encoded(start, disk_list_text(prefix), disk_text(*disk));
        }
        i = i + 1;
    }
    write_end_tag(buf, "disks");
    proof {
        assert(disks@.take(i as int) =~= disks@);
        lemma_append_encoded(old(buf)@, start_tag_text("disks"@), disk_list_text(disks@));
        lemma_append_encoded(old(buf)@, start_tag_text("disks"@) + disk_list_text(disks@), end_tag_text("disks"@));
    }
}

/// Writes the `networks` element.
pub fn write_networks_info(buf: &mut Vec<u8>, networks: &Vec<NetworkInfo>)
    ensures
        final(buf)@ == old(buf)@ + encode_utf8(networks_text(networks@)),
{
    write_start_tag(buf, "networks");
    let ghost start = buf@;
    proof {
        assert(networks@.take(0) =~= Seq::<NetworkInfo>::empty());
        assert(encode_utf8(Seq::<char>::empty()) =~= Seq::<u8>::empty());
        assert(start + encode_utf8(network_list_text(networks@.take(0))) =~= start);
    }
    let mut i: usize = 0;
    while i < networks.len()
        invariant
            i <= networks.len(),
            buf@ == start + encode_utf8(network_list_text(networks@.take(i as int))),
        decreases networks.len() - i,
    {
        let network = &networks[i];
        let received = u64_to_decimal(network.received);
        let total_received = u64_to_decimal(network.total_received);
        let transmitted = u64_to_decimal(network.transmitted);
        let total_transmitted = u64_to_decimal(network.total_transmitted);
        let attributes = [
            ("name", network.interface_name.as_str()),
            ("received", received.as_str()),
            ("total_received", total_received.as_str()),
            ("transmitted", transmitted.as_str()),
            ("total_transmitted", total_transmitted.as_str()),
        ];
        write_empty_element(buf, "network", &attributes);
        proof {
            assert(attribute_views(attributes@) =~= seq![
                ("name"@, network.interface_name@),
                ("received"@, decimal(network.received as nat)),
                ("total_received"@, decimal(network.total_received as nat)),
                ("transmitted"@, decimal(network.transmitted as nat)),
                ("total_transmitted"@, decimal(network.total_transmitted as nat)),
            ]);
            let prefix = networks@.take(i as int);
            assert(networks@.take(i + 1).drop_last() =~= prefix);
            assert(networks@.take(i + 1).last() == *network);
            lemma_append_encoded(start, network_list_text(prefix), network_text(*network));
        }
        i = i + 1;
    }
    write_end_tag(buf, "networks");
    proof {
        assert(networks@.take(i as int) =~= networks@);
        lemma_append_encoded(old(buf)@, start_tag_text("networks"@), network_list_text(networks@));
        lemma_append_encoded(old(buf)@, start_tag_text("networks"@) + network_list_text(networks@), end_tag_text("networks"@));
    }
}

/// The XML `record` of a snapshot, as UTF-8 bytes.
pub fn serialize_xml(snapshot: &SystemSnapshot) -> (bytes: Vec<u8>)
    ensures
        bytes@ == encode_utf8(record_text(*snapshot)),
{
    let mut buf: Vec<u8> = Vec::new();
    write_start_tag(&mut buf, "record");
    write_cpus_info(&mut buf, &snapshot.cpus);
    write_ram_info(&mut buf, &snapshot.ram);
    write_disks_info(&mut buf, &snapshot.disks);
    write_networks_info(&mut buf, &snapshot.networks);
    write_end_tag(&mut buf, "record");
    proof {
        let e = Seq::<u8>::empty();
        let t0 = start_tag_text("record"@);
        let t1 = cpus_text(snapshot.cpus@);
        let t2 = ram_text(snapshot.ram);
        let t3 = disks_text(snapshot.disks@);
        let t4 = networks_text(snapshot.networks@);
        let t5 = end_tag_text("record"@);
        assert(e + encode_utf8(t0) =~= encode_utf8(t0));
        lemma_append_encoded(e, t0, t1);
        lemma_append_encoded(e, t0 + t1, t2);
        lemma_append_encoded(e, t0 + t1 + t2, t3);
        lemma_append_encoded(e, t0 + t1 + t2 + t3, t4);
        lemma_append_encoded(e, t0 + t1 + t2 + t3 + t4, t5);
        assert(e + encode_utf8(record_text(*snapshot)) =~= encode_utf8(record_text(*snapshot)));
    }
    buf
}

/// The record that a node sends to the database: the XML form of the
/// snapshot, as UTF-8 bytes.
pub fn get_record(snapshot: &SystemSnapshot) -> (bytes: Vec<u8>)
    ensures
        bytes@ == encode_utf8(record_text(*snapshot)),
{
    serialize_xml(snapshot)
}

/// A record is always valid UTF-8, and decoding it gives back the record
/// text, so turning it into a string never fails.
pub proof fn lemma_record_is_utf8(snapshot: SystemSnapshot)
    ensures
        valid_utf8(encode_utf8(record_text(snapshot))),
        decode_utf8(encode_utf8(record_text(snapshot))) == record_text(snapshot),
{
    encode_utf8_valid_utf8(record_text(snapshot));
    encode_utf8_decode_utf8(record_text(snapshot));
}

/// Decimal text passes through attribute escaping unchanged.
proof fn lemma_escape_decimal(n: nat)
    ensures
        escape_text(decimal(n)) == decimal(n),
{
    lemma_decimal_is_digits(n);
    assert forall|i: int| 0 <= i < decimal(n).len() implies is_plain_char(#[trigger] decimal(n)[i]) by {}
    lemma_escape_plain(decimal(n));
}

/// Spells ` key="` for the keys of the record's attributes.
proof fn lemma_openings()
    ensures
        " name=\""@ == seq![' '] + "name"@ + seq!['=', '"'],
        " usage=\""@ == seq![' '] + "usage"@ + seq!['=', '"'],
        " frequency=\""@ == seq![' '] + "frequency"@ + seq!['=', '"'],
        " total=\""@ == seq![' '] + "total"@ + seq!['=', '"'],
        " used=\""@ == seq![' '] + "used"@ + seq!['=', '"'],
        " total_swap=\""@ == seq![' '] + "total_swap"@ + seq!['=', '"'],
        " used_swap=\""@ == seq![' '] + "used_swap"@ + seq!['=', '"'],
        " kind=\""@ == seq![' '] + "kind"@ + seq!['=', '"'],
        " file_system=\""@ == seq![' '] + "file_system"@ + seq!['=', '"'],
        " total_space=\""@ == seq![' '] + "total_space"@ + seq!['=', '"'],
        " available_space=\""@ == seq![' '] + "available_space"@ + seq!['=', '"'],
        " received=\""@ == seq![' '] + "received"@ + seq!['=', '"'],
        " total_received=\""@ == seq![' '] + "total_received"@ + seq!['=', '"'],
        " transmitted=\""@ == seq![' '] + "transmitted"@ + seq!['=', '"'],
        " total_transmitted=\""@ == seq![' '] + "total_transmitted"@ + seq!['=', '"'],
        "<cpu"@ == seq!['<'] + "cpu"@,
        "<ram"@ == seq!['<'] + "ram"@,
        "<disk"@ == seq!['<'] + "disk"@,
        "<network"@ == seq!['<'] + "network"@,
        "/>"@ == seq!['/', '>'],
{
    reveal_strlit(" name=\""); reveal_strlit("name");
    reveal_strlit(" usage=\""); reveal_strlit("usage");
    reveal_strlit(" frequency=\""); reveal_strlit("frequency");
    reveal_strlit(" total=\""); reveal_strlit("total");
    reveal_strlit(" used=\""); reveal_strlit("used");
    reveal_strlit(" total_swap=\""); reveal_strlit("total_swap");
    reveal_strlit(" used_swap=\""); reveal_strlit("used_swap");
    reveal_strlit(" kind=\""); reveal_strlit("kind");
    reveal_strlit(" file_system=\""); reveal_strlit("file_system");
    reveal_strlit(" total_space=\""); reveal_strlit("total_space");
    reveal_strlit(" available_space=\""); reveal_strlit("available_space");
    reveal_strlit(" received=\""); reveal_strlit("received");
    reveal_strlit(" total_received=\""); reveal_strlit("total_received");
    reveal_strlit(" transmitted=\""); reveal_strlit("transmitted");
    reveal_strlit(" total_transmitted=\""); reveal_strlit("total_transmitted");
    reveal_strlit("<cpu"); reveal_strlit("cpu");
    reveal_strlit("<ram"); reveal_strlit("ram");
    reveal_strlit("<disk"); reveal_strlit("disk");
    reveal_strlit("<network"); reveal_strlit("network");
    reveal_strlit("/>");
    assert(" name=\""@ =~= seq![' '] + "name"@ + seq!['=', '"']);
    assert(" usage=\""@ =~= seq![' '] + "usage"@ + seq!['=', '"']);
    assert(" frequency=\""@ =~= seq![' '] + "frequency"@ + seq!['=', '"']);
    assert(" total=\""@ =~= seq![' '] + "total"@ + seq!['=', '"']);
    assert(" used=\""@ =~= seq![' '] + "used"@ + seq!['=', '"']);
    assert(" total_swap=\""@ =~= seq![' '] + "total_swap"@ + seq!['=', '"']);
    assert(" used_swap=\""@ =~= seq![' '] + "used_swap"@ + seq!['=', '"']);
    assert(" kind=\""@ =~= seq![' '] + "kind"@ + seq!['=', '"']);
    assert(" file_system=\""@ =~= seq![' '] + "file_system"@ + seq!['=', '"']);
    assert(" total_space=\""@ =~= seq![' '] + "total_space"@ + seq!['=', '"']);
    assert(" available_space=\""@ =~= seq![' '] + "available_space"@ + seq!['=', '"']);
    assert(" received=\""@ =~= seq![' '] + "received"@ + seq!['=', '"']);
    assert(" total_received=\""@ =~= seq![' '] + "total_received"@ + seq!['=', '"']);
    assert(" transmitted=\""@ =~= seq![' '] + "transmitted"@ + seq!['=', '"']);
    assert(" total_transmitted=\""@ =~= seq![' '] + "total_transmitted"@ + seq!['=', '"']);
    assert("<cpu"@ =~= seq!['<'] + "cpu"@);
    assert("<ram"@ =~= seq!['<'] + "ram"@);
    assert("<disk"@ =~= seq!['<'] + "disk"@);
    assert("<network"@ =~= seq!['<'] + "network"@);
    assert("/>"@ =~= seq!['/', '>']);
}

/// The element of a disk: `<disk`, then the attributes `name`, `kind`,
/// `file_system`, `total_space` and `available_space` in that order, each
/// carrying the disk's own value escaped (an absent name or file system
/// gives the empty value), then `/>`.
pub proof fn lemma_disk_element(d: DiskInfo)
    ensures
        disk_text(d) == "<disk"@
            + " name=\""@ + escape_text(text_or_empty(d.name)) + "\""@
            + " kind=\""@ + escape_text(d.kind@) + "\""@
            + " file_system=\""@ + escape_text(text_or_empty(d.file_system)) + "\""@
            + " total_space=\""@ + decimal(d.total_space as nat) + "\""@
            + " available_space=\""@ + decimal(d.available_space as nat) + "\""@
            + "/>"@,
{
    lemma_openings();
    lemma_escape_decimal(d.total_space as nat);
    lemma_escape_decimal(d.available_space as nat);
    lemma_element_of_five(
        "disk"@,
        "<disk"@,
        "/>"@,
        ("name"@, "kind"@, "file_system"@, "total_space"@, "available_space"@),
        (" name=\""@, " kind=\""@, " file_system=\""@, " total_space=\""@, " available_space=\""@),
        (text_or_empty(d.name), d.kind@, text_or_empty(d.file_system), decimal(d.total_space as nat), decimal(d.available_space as nat)),
    );
}

/// An optional name stands for its text when present, and for the empty
/// text when absent.
pub proof fn lemma_text_or_empty(o: Option<String>)
    ensures
        o matches Some(t) ==> text_or_empty(o) == t@,
        o is None ==> text_or_empty(o) == Seq::<char>::empty(),
{
}

/// The element of a CPU: `<cpu`, then `name`, `usage` and `frequency` in
/// that order, each carrying the CPU's own value, then `/>`.
pub proof fn lemma_cpu_element(c: CpuInfo)
    ensures
        cpu_text(c) == "<cpu"@
            + " name=\""@ + escape_text(c.name@) + "\""@
            + " usage=\""@ + escape_text(c.usage@) + "\""@
            + " frequency=\""@ + decimal(c.frequency as nat) + "\""@
            + "/>"@,
{
    lemma_openings();
    lemma_escape_decimal(c.frequency as nat);
    lemma_element_of_three(
        "cpu"@,
        "<cpu"@,
        "/>"@,
        ("name"@, "usage"@, "frequency"@),
        (" name=\""@, " usage=\""@, " frequency=\""@),
        (c.name@, c.usage@, decimal(c.frequency as nat)),
    );
}

/// The element of the memory: `<ram`, then `total`, `used`, `total_swap`
/// and `used_swap` in that order, each the decimal text of its amount,
/// then `/>`.
pub proof fn lemma_ram_element(r: RamInfo)
    ensures
        ram_text(r) == "<ram"@
            + " total=\""@ + decimal(r.total as nat) + "\""@
            + " used=\""@ + decimal(r.used as nat) + "\""@
            + " total_swap=\""@ + decimal(r.total_swap as nat) + "\""@
            + " used_swap=\""@ + decimal(r.used_swap as nat) + "\""@
            + "/>"@,
{
    lemma_openings();
    lemma_escape_decimal(r.total as nat);
    lemma_escape_decimal(r.used as nat);
    lemma_escape_decimal(r.total_swap as nat);
    lemma_escape_decimal(r.used_swap as nat);
    lemma_element_of_four(
        "ram"@,
        "<ram"@,
        "/>"@,
        ("total"@, "used"@, "total_swap"@, "used_swap"@),
        (" total=\""@, " used=\""@, " total_swap=\""@, " used_swap=\""@),
        (decimal(r.total as nat), decimal(r.used as nat), decimal(r.total_swap as nat), decimal(r.used_swap as nat)),
    );
}

/// The element of a network interface: `<network`, then `name`,
/// `received`, `total_received`, `transmitted` and `total_transmitted` in
/// that order, each carrying the interface's own value, then `/>`.
pub proof fn lemma_network_element(n: NetworkInfo)
    ensures
        network_text(n) == "<network"@
            + " name=\""@ + escape_text(n.interface_name@) + "\""@
            + " received=\""@ + decimal(n.received as nat) + "\""@
            + " total_received=\""@ + decimal(n.total_received as nat) + "\""@
            + " transmitted=\""@ + decimal(n.transmitted as nat) + "\""@
            + " total_transmitted=\""@ + decimal(n.total_transmitted as nat) + "\""@
            + "/>"@,
{
    lemma_openings();
    lemma_escape_decimal(n.received as nat);
    lemma_escape_decimal(n.total_received as nat);
    lemma_escape_decimal(n.transmitted as nat);
    lemma_escape_decimal(n.total_transmitted as nat);
    lemma_element_of_five(
        "network"@,
        "<network"@,
        "/>"@,
        ("name"@, "received"@, "total_received"@, "transmitted"@, "total_transmitted"@),
        (" name=\""@, " received=\""@, " total_received=\""@, " transmitted=\""@, " total_transmitted=\""@),
        (n.interface_name@, decimal(n.received as nat), decimal(n.total_received as nat), decimal(n.transmitted as nat), decimal(n.total_transmitted as nat)),
    );
}

proof fn lemma_cpu_list_holds(cpus: Seq<CpuInfo>, i: int)
    requires
        0 <= i < cpus.len(),
    ensures
        text_contains(cpu_list_text(cpus), cpu_text(cpus[i])),
    decreases cpus.len(),
{
    let rest = cpus.drop_last();
    if i == cpus.len() - 1 {
        lemma_contains_self(cpu_text(cpus[i]));
        lemma_contains_within(cpu_list_text(rest), cpu_text(cpus[i]), Seq::empty(), cpu_text(cpus[i]));
        assert(cpu_list_text(rest) + cpu_text(cpus[i]) + Seq::<char>::empty() =~= cpu_list_text(cpus));
    } else {
        assert(rest[i] == cpus[i]);
        lemma_cpu_list_holds(rest, i);
        lemma_contains_within(Seq::empty(), cpu_list_text(rest), cpu_text(cpus.last()), cpu_text(cpus[i]));
        assert(Seq::<char>::empty() + cpu_list_text(rest) + cpu_text(cpus.last()) =~= cpu_list_text(cpus));
    }
}

proof fn lemma_disk_list_holds(disks: Seq<DiskInfo>, i: int)
    requires
        0 <= i < disks.len(),
    ensures
        text_contains(disk_list_text(disks), disk_text(disks[i])),
    decreases disks.len(),
{
    let rest = disks.drop_last();
    if i == disks.len() - 1 {
        lemma_contains_self(disk_text(disks[i]));
        lemma_contains_within(disk_list_text(rest), disk_text(disks[i]), Seq::empty(), disk_text(disks[i]));
        assert(disk_list_text(rest) + disk_text(disks[i]) + Seq::<char>::empty() =~= disk_list_text(disks));
    } else {
        assert(rest[i] == disks[i]);
        lemma_disk_list_holds(rest, i);
        lemma_contains_within(Seq::empty(), disk_list_text(rest), disk_text(disks.last()), disk_text(disks[i]));
        assert(Seq::<char>::empty() + disk_list_text(rest) + disk_text(disks.last()) =~= disk_list_text(disks));
    }
}

proof fn lemma_network_list_holds(networks: Seq<NetworkInfo>, i: int)
    requires
        0 <= i < networks.len(),
    ensures
        text_contains(network_list_text(networks), network_text(networks[i])),
    decreases networks.len(),
{
    let rest = networks.drop_last();
    if i == networks.len() - 1 {
        lemma_contains_self(network_text(networks[i]));
        lemma_contains_within(network_list_text(rest), network_text(networks[i]), Seq::empty(), network_text(networks[i]));
        assert(network_list_text(rest) + network_text(networks[i]) + Seq::<char>::empty() =~= network_list_text(networks));
    } else {
        assert(rest[i] == networks[i]);
        lemma_network_list_holds(rest, i);
        lemma_contains_within(Seq::empty(), network_list_text(rest), network_text(networks.last()), network_text(networks[i]));
        assert(Seq::<char>::empty() + network_list_text(rest) + network_text(networks.last()) =~= network_list_text(networks));
    }
}

/// The record holds the element of every CPU of the snapshot.
pub proof fn lemma_record_shows_cpus(s: SystemSnapshot, i: int)
    requires
        0 <= i < s.cpus@.len(),
    ensures
        text_contains(record_text(s), cpu_text(s.cpus@[i])),
{
    let x = cpu_text(s.cpus@[i]);
    let cs = cpus_text(s.cpus@);
    lemma_cpu_list_holds(s.cpus@, i);
    lemma_contains_within(start_tag_text("cpus"@), cpu_list_text(s.cpus@), end_tag_text("cpus"@), x);
    let rest = ram_text(s.ram) + disks_text(s.disks@) + networks_text(s.networks@) + end_tag_text("record"@);
    lemma_contains_self(cs);
    lemma_contains_within(start_tag_text("record"@), cs, rest, cs);
    assert(start_tag_text("record"@) + cs + rest =~= record_text(s));
    lemma_contains_trans(record_text(s), cs, x);
}

/// The record holds the element of the memory.
pub proof fn lemma_record_shows_ram(s: SystemSnapshot)
    ensures
        text_contains(record_text(s), ram_text(s.ram)),
{
    let r = ram_text(s.ram);
    let before = start_tag_text("record"@) + cpus_text(s.cpus@);
    let after = disks_text(s.disks@) + networks_text(s.networks@) + end_tag_text("record"@);
    lemma_contains_self(r);
    lemma_contains_within(before, r, after, r);
    assert(before + r + after =~= record_text(s));
}

/// The record holds the element of every disk of the snapshot.
pub proof fn lemma_record_shows_disks(s: SystemSnapshot, i: int)
    requires
        0 <= i < s.disks@.len(),
    ensures
        text_contains(record_text(s), disk_text(s.disks@[i])),
{
    let x = disk_text(s.disks@[i]);
    let ds = disks_text(s.disks@);
    lemma_disk_list_holds(s.disks@, i);
    lemma_contains_within(start_tag_text("disks"@), disk_list_text(s.disks@), end_tag_text("disks"@), x);
    let before = start_tag_text("record"@) + cpus_text(s.cpus@) + ram_text(s.ram);
    let after = networks_text(s.networks@) + end_tag_text("record"@);
    lemma_contains_self(ds);
    lemma_contains_within(before, ds, after, ds);
    assert(before + ds + after =~= record_text(s));
    lemma_contains_trans(record_text(s), ds, x);
}

/// The record holds the element of every network interface of the
/// snapshot.
pub proof fn lemma_record_shows_networks(s: SystemSnapshot, i: int)
    requires
        0 <= i < s.networks@.len(),
    ensures
        text_contains(record_text(s), network_text(s.networks@[i])),
{
    let x = network_text(s.networks@[i]);
    let ns = networks_text(s.networks@);
    lemma_network_list_holds(s.networks@, i);
    lemma_contains_within(start_tag_text("networks"@), network_list_text(s.networks@), end_tag_text("networks"@), x);
    let before = start_tag_text("record"@) + cpus_text(s.cpus@) + ram_text(s.ram) + disks_text(s.disks@);
    lemma_contains_self(ns);
    lemma_contains_within(before, ns, end_tag_text("record"@), ns);
    lemma_contains_trans(record_text(s), ns, x);
}

/// A disk element carries the disk's file system: when the file system is
/// known, ` file_system="<escaped file system>"` occurs in it, and so in the
/// record that holds the disk.
pub proof fn lemma_record_shows_file_system(s: SystemSnapshot, i: int)
    requires
        0 <= i < s.disks@.len(),
    ensures
        s.disks@[i].file_system matches Some(fs) ==> {
            &&& text_contains(disk_text(s.disks@[i]), " file_system=\""@ + escape_text(fs@) + "\""@)
            &&& text_contains(record_text(s), " file_system=\""@ + escape_text(fs@) + "\""@)
        },
{
    let d = s.disks@[i];
    if let Some(fs) = d.file_system {
        let a = " file_system=\""@ + escape_text(fs@) + "\""@;
        lemma_disk_element(d);
        let before = "<disk"@ + " name=\""@ + escape_text(text_or_empty(d.name)) + "\""@
            + " kind=\""@ + escape_text(d.kind@) + "\""@;
        let after = " total_space=\""@ + decimal(d.total_space as nat) + "\""@
            + " available_space=\""@ + decimal(d.available_space as nat) + "\""@ + "/>"@;
        assert(disk_text(d) =~= before + a + after);
        lemma_contains_self(a);
        lemma_contains_within(before, a, after, a);
        lemma_record_shows_disks(s, i);
        lemma_contains_trans(record_text(s), disk_text(d), a);
    }
}

/// The record is the `record` element holding, in this order, the `cpus`
/// element with one `cpu` element per CPU, the `ram` element, the `disks`
/// element with one `disk` element per disk, and the `networks` element
/// with one `network` element per interface.
pub proof fn lemma_record_layout(s: SystemSnapshot)
    ensures
        record_text(s) == "<record><cpus>"@ + cpu_list_text(s.cpus@) + "</cpus>"@ + ram_text(s.ram)
            + "<disks>"@ + disk_list_text(s.disks@) + "</disks><networks>"@
            + network_list_text(s.networks@) + "</networks></record>"@,
        forall|c: CpuInfo| #![trigger s.cpus@.push(c)] cpu_list_text(s.cpus@.push(c)) == cpu_list_text(s.cpus@) + cpu_text(c),
        forall|d: DiskInfo| #![trigger s.disks@.push(d)] disk_list_text(s.disks@.push(d)) == disk_list_text(s.disks@) + disk_text(d),
        forall|n: NetworkInfo| #![trigger s.networks@.push(n)] network_list_text(s.networks@.push(n)) == network_list_text(s.networks@) + network_text(n),
        cpu_list_text(Seq::<CpuInfo>::empty()) == Seq::<char>::empty(),
        disk_list_text(Seq::<DiskInfo>::empty()) == Seq::<char>::empty(),
        network_list_text(Seq::<NetworkInfo>::empty()) == Seq::<char>::empty(),
{
    reveal_strlit("<record><cpus>");
    reveal_strlit("</cpus>");
    reveal_strlit("<disks>");
    reveal_strlit("</disks><networks>");
    reveal_strlit("</networks></record>");
    reveal_strlit("record");
    reveal_strlit("cpus");
    reveal_strlit("disks");
    reveal_strlit("networks");
    assert(record_text(s) =~= "<record><cpus>"@ + cpu_list_text(s.cpus@) + "</cpus>"@ + ram_text(s.ram)
        + "<disks>"@ + disk_list_text(s.disks@) + "</disks><networks>"@
        + network_list_text(s.networks@) + "</networks></record>"@);
    assert forall|c: CpuInfo| #![trigger s.cpus@.push(c)] cpu_list_text(s.cpus@.push(c)) == cpu_list_text(s.cpus@) + cpu_text(c) by {
        assert(s.cpus@.push(c).drop_last() =~= s.cpus@);
    }
    assert forall|d: DiskInfo| #![trigger s.disks@.push(d)] disk_list_text(s.disks@.push(d)) == disk_list_text(s.disks@) + disk_text(d) by {
        assert(s.disks@.push(d).drop_last() =~= s.disks@);
    }
    assert forall|n: NetworkInfo| #![trigger s.networks@.push(n)] network_list_text(s.networks@.push(n)) == network_list_text(s.networks@) + network_text(n) by {
        assert(s.networks@.push(n).drop_last() =~= s.networks@);
    }
}

} // verus!
