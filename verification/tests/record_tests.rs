use dht_core::decimal::u64_to_decimal;
use dht_core::sysinfo_extractor::{
    get_record, serialize_xml, CpuInfo, DiskInfo, NetworkInfo, RamInfo, SystemSnapshot,
};
use quick_xml::Writer;
use std::io::Cursor;

fn sample() -> SystemSnapshot {
    SystemSnapshot {
        cpus: vec![
            CpuInfo { name: "cpu0".to_string(), usage: "12.5".to_string(), frequency: 2400 },
            CpuInfo { name: "cpu1".to_string(), usage: "0".to_string(), frequency: 0 },
        ],
        ram: RamInfo { total: 16, used: 8, total_swap: 4, used_swap: 0 },
        disks: vec![DiskInfo {
            name: Some("sda".to_string()),
            kind: "SSD".to_string(),
            file_system: None,
            total_space: 100,
            available_space: 50,
        }],
        networks: vec![NetworkInfo {
            interface_name: "eth<0>&\"'".to_string(),
            received: 1,
            total_received: 2,
            transmitted: 3,
            total_transmitted: u64::MAX,
        }],
    }
}

/// The same document written with quick-xml's element API, as the node
/// always wrote it.
fn written_with_element_api(s: &SystemSnapshot) -> Vec<u8> {
    let mut writer = Writer::new(Cursor::new(Vec::new()));
    writer
        .create_element("record")
        .write_inner_content::<_, quick_xml::Error>(|writer| {
            writer.create_element("cpus").write_inner_content::<_, quick_xml::Error>(|writer| {
                for cpu in &s.cpus {
                    writer
                        .create_element("cpu")
                        .with_attribute(("name", cpu.name.as_str()))
                        .with_attribute(("usage", cpu.usage.as_str()))
                        .with_attribute(("frequency", cpu.frequency.to_string().as_str()))
                        .write_empty()?;
                }
                Ok(())
            })?;
            writer
                .create_element("ram")
                .with_attribute(("total", s.ram.total.to_string().as_str()))
                .with_attribute(("used", s.ram.used.to_string().as_str()))
                .with_attribute(("total_swap", s.ram.total_swap.to_string().as_str()))
                .with_attribute(("used_swap", s.ram.used_swap.to_string().as_str()))
                .write_empty()?;
            writer.create_element("disks").write_inner_content::<_, quick_xml::Error>(|writer| {
                for d in &s.disks {
                    writer
                        .create_element("disk")
                        .with_attribute(("name", d.name.as_deref().unwrap_or("")))
                        .with_attribute(("kind", d.kind.as_str()))
                        .with_attribute(("file_system", d.file_system.as_deref().unwrap_or("")))
                        .with_attribute(("total_space", d.total_space.to_string().as_str()))
                        .with_attribute(("available_space", d.available_space.to_string().as_str()))
                        .write_empty()?;
                }
                Ok(())
            })?;
            writer.create_element("networks").write_inner_content::<_, quick_xml::Error>(|writer| {
                for n in &s.networks {
                    writer
                        .create_element("network")
                        .with_attribute(("name", n.interface_name.as_str()))
                        .with_attribute(("received", n.received.to_string().as_str()))
                        .with_attribute(("total_received", n.total_received.to_string().as_str()))
                        .with_attribute(("transmitted", n.transmitted.to_string().as_str()))
                        .with_attribute(("total_transmitted", n.total_transmitted.to_string().as_str()))
                        .write_empty()?;
                }
                Ok(())
            })?;
            Ok(())
        })
        .unwrap();
    writer.into_inner().into_inner()
}

#[test]
fn record_matches_element_api() {
    let s = sample();
    assert_eq!(get_record(&s), written_with_element_api(&s));
}

#[test]
fn record_exact_text() {
    let s = sample();
    let text = String::from_utf8(serialize_xml(&s)).unwrap();
    let expected = [
        "<record><cpus>",
        "<cpu name=\"cpu0\" usage=\"12.5\" frequency=\"2400\"/>",
        "<cpu name=\"cpu1\" usage=\"0\" frequency=\"0\"/>",
        "</cpus>",
        "<ram total=\"16\" used=\"8\" total_swap=\"4\" used_swap=\"0\"/>",
        "<disks><disk name=\"sda\" kind=\"SSD\" file_system=\"\" total_space=\"100\" available_space=\"50\"/></disks>",
        "<networks><network name=\"eth&lt;0&gt;&amp;&quot;&apos;\" received=\"1\" total_received=\"2\" transmitted=\"3\" total_transmitted=\"18446744073709551615\"/></networks>",
        "</record>",
    ]
    .concat();
    assert_eq!(text, expected);
}

#[test]
fn record_of_empty_machine() {
    let s = SystemSnapshot {
        cpus: vec![],
        ram: RamInfo { total: 0, used: 0, total_swap: 0, used_swap: 0 },
        disks: vec![],
        networks: vec![],
    };
    let text = String::from_utf8(get_record(&s)).unwrap();
    assert_eq!(
        text,
        "<record><cpus></cpus><ram total=\"0\" used=\"0\" total_swap=\"0\" used_swap=\"0\"/><disks></disks><networks></networks></record>"
    );
}

#[test]
fn record_keeps_non_ascii_names() {
    let mut s = sample();
    s.cpus[0].name = "Ünïcødé ∑".to_string();
    assert_eq!(get_record(&s), written_with_element_api(&s));
}

#[test]
fn decimal_matches_to_string() {
    for n in [0u64, 1, 9, 10, 11, 99, 100, 12345, 1_000_000, u64::MAX - 1, u64::MAX] {
        assert_eq!(u64_to_decimal(n), n.to_string());
    }
}
