use vsh::command::CommandResult;
use vsh::error::Error;
use vsh::json::parse_document;
use vsh::xdp::{
    get_cdp_neighbors, get_lldp_neighbors, CDPNeighbor, CDPNeighborsTable, LLDPNeighbor,
    LLDPNeighborsTable, NeighborSource, Neighbors, ShowCDPNeighborsResult,
    ShowLLDPNeighborsResult, CDP_NEIGHBORS_COMMAND, LLDP_NEIGHBORS_COMMAND,
};

const LLDP_ROW: &str = "{
    \"chassis_type\": \"Mac Address\",
    \"chassis_id\": \"1234.1234.1234\",
    \"sys_name\": \"test-hostname\",
    \"l_port_id\": \"mgmt0\",
    \"ttl\": \"120\",
    \"vlan_id\": \"39\",
    \"system_capability\": \"BR\",
    \"enabled_capability\": \"BR\",
    \"port_type\": \"Interface Name\",
    \"port_id\": \"Gi1/21\",
    \"port_desc\": \"uplink\",
    \"mgmt_addr_type\": \"IPV4\",
    \"mgmt_addr\": \"1.2.3.4\",
    \"mgmt_addr_ipv6_type\": \"Address not advertised\",
    \"mgmt_addr_ipv6\": \"not advertised\"
}";

const CDP_ROW: &str = "{
    \"ifindex\": \"83886080\",
    \"device_id\": \"switch-2\",
    \"vtpname\": \"lab\",
    \"v4addr\": \"10.0.0.2\",
    \"v4mgmtaddr\": \"10.0.0.3\",
    \"version\": \"Cisco NX-OS\",
    \"version_no\": \"v2\",
    \"nativevlan\": \"1\",
    \"duplexmode\": \"full\",
    \"mtu\": \"1500\",
    \"platform_id\": \"N9K-C93180YC-EX\",
    \"port_id\": \"Ethernet1/1\",
    \"intf_id\": \"mgmt0\",
    \"ttl\": \"179\",
    \"capabilities\": [\"router\", \"switch\", \"IGMP_cnd_filtering\"]
}";

fn lldp_document(rows: &[String]) -> String {
    format!("{{\"TABLE_nbor_detail\": {{\"ROW_nbor_detail\": [{}]}}}}", rows.join(","))
}

fn cdp_document(rows: &[String]) -> String {
    format!(
        "{{\"TABLE_cdp_neighbor_detail_info\": {{\"ROW_cdp_neighbor_detail_info\": [{}]}}}}",
        rows.join(",")
    )
}

fn printed(stdout: &str) -> CommandResult {
    CommandResult { stdout: stdout.to_string(), stderr: String::new(), status: Some(0) }
}

fn lldp(stdout: &str) -> Result<Vec<LLDPNeighbor>, Error> {
    get_lldp_neighbors(&printed(stdout))
}

fn cdp(stdout: &str) -> Result<Vec<CDPNeighbor>, Error> {
    get_cdp_neighbors(&printed(stdout))
}

#[test]
fn good_lldp_neighbor_format() {
    let data = lldp_document(&[LLDP_ROW.to_string()]);
    let document = parse_document(data.as_str()).unwrap();
    let result = ShowLLDPNeighborsResult::from_json(&document).unwrap();
    let neighbors = result.neighbors_table.neighbors;

    let test_neighbor = neighbors.first().unwrap();
    let my_neighbor = LLDPNeighbor {
        remote_device_id_type: "Mac Address".to_string(),
        remote_device_id: "1234.1234.1234".to_string(),
        remote_device: "test-hostname".to_string(),
        local_port: "mgmt0".to_string(),
        ttl: 120,
        vlan_id: 39,
        system_capability: "BR".to_string(),
        enabled_capability: "BR".to_string(),
        port_type: "Interface Name".to_string(),
        remote_port: "Gi1/21".to_string(),
        management_address_type: "IPV4".to_string(),
        management_address: "1.2.3.4".to_string(),
        management_address_ipv6_type: "Address not advertised".to_string(),
        management_address_ipv6: "not advertised".to_string(),
    };

    assert_eq!(my_neighbor.remote_device_id_type, test_neighbor.remote_device_id_type);
    assert_eq!(my_neighbor.remote_device, test_neighbor.remote_device);
    assert_eq!(my_neighbor.local_port, test_neighbor.local_port);
    assert_eq!(my_neighbor.ttl, test_neighbor.ttl);
    assert_eq!(my_neighbor.system_capability, test_neighbor.system_capability);
    assert_eq!(my_neighbor.enabled_capability, test_neighbor.enabled_capability);
    assert_eq!(my_neighbor.port_type, test_neighbor.port_type);
    assert_eq!(my_neighbor.remote_port, test_neighbor.remote_port);
    assert_eq!(my_neighbor.management_address_type, test_neighbor.management_address_type);
    assert_eq!(my_neighbor.management_address, test_neighbor.management_address);
    assert_eq!(
        my_neighbor.management_address_ipv6_type,
        test_neighbor.management_address_ipv6_type
    );
    assert_eq!(my_neighbor.management_address_ipv6, test_neighbor.management_address_ipv6);
}

#[test]
fn every_field_of_an_lldp_row_comes_from_its_key() {
    let n = lldp(&lldp_document(&[LLDP_ROW.to_string()])).unwrap().remove(0);
    assert_eq!(n.remote_device_id_type, "Mac Address");
    assert_eq!(n.remote_device_id, "1234.1234.1234");
    assert_eq!(n.remote_device, "test-hostname");
    assert_eq!(n.local_port, "mgmt0");
    assert_eq!(n.ttl, 120);
    assert_eq!(n.vlan_id, 39);
    assert_eq!(n.system_capability, "BR");
    assert_eq!(n.enabled_capability, "BR");
    assert_eq!(n.port_type, "Interface Name");
    assert_eq!(n.remote_port, "Gi1/21");
    assert_eq!(n.management_address_type, "IPV4");
    assert_eq!(n.management_address, "1.2.3.4");
    assert_eq!(n.management_address_ipv6_type, "Address not advertised");
    assert_eq!(n.management_address_ipv6, "not advertised");
}

#[test]
fn every_field_of_a_cdp_row_comes_from_its_key() {
    let n = cdp(&cdp_document(&[CDP_ROW.to_string()])).unwrap().remove(0);
    assert_eq!(n.remote_port_id, 83886080);
    assert_eq!(n.remote_device, "switch-2");
    assert_eq!(n.vtp_name, "lab");
    assert_eq!(n.ip_address, "10.0.0.2");
    assert_eq!(n.management_address, "10.0.0.3");
    assert_eq!(n.remote_version, "Cisco NX-OS");
    assert_eq!(n.cdp_version, "v2");
    assert_eq!(n.native_vlan, 1);
    assert_eq!(n.duplex_mode, "full");
    assert_eq!(n.mtu, 1500);
    assert_eq!(n.remote_device_id_type, "N9K-C93180YC-EX");
    assert_eq!(n.remote_port, "Ethernet1/1");
    assert_eq!(n.remote_interface, "mgmt0");
    assert_eq!(n.ttl, 179);
    assert_eq!(n.capabilities, vec!["router", "switch", "IGMP_cnd_filtering"]);
}

#[test]
fn a_table_without_rows_has_no_neighbours() {
    assert_eq!(lldp(&lldp_document(&[])).unwrap().len(), 0);
    assert_eq!(cdp(&cdp_document(&[])).unwrap().len(), 0);
}

#[test]
fn rows_come_out_in_the_order_of_the_document() {
    let rows: Vec<String> = (0..7)
        .map(|i| {
            LLDP_ROW
                .replace("test-hostname", &format!("host-{}", i))
                .replace("120", &format!("{}", 100 + i))
        })
        .collect();
    let neighbors = lldp(&lldp_document(&rows)).unwrap();
    assert_eq!(neighbors.len(), 7);
    for (i, n) in neighbors.iter().enumerate() {
        assert_eq!(n.remote_device, format!("host-{}", i));
        assert_eq!(n.ttl, 100 + i as u32);
    }
    let same = vec![LLDP_ROW.to_string(), LLDP_ROW.to_string()];
    assert_eq!(lldp(&lldp_document(&same)).unwrap().len(), 2);
    let cdp_rows: Vec<String> =
        (0..3).map(|i| CDP_ROW.replace("switch-2", &format!("switch-{}", i))).collect();
    let found = cdp(&cdp_document(&cdp_rows)).unwrap();
    assert_eq!(found.len(), 3);
    for (i, n) in found.iter().enumerate() {
        assert_eq!(n.remote_device, format!("switch-{}", i));
    }
}

#[test]
fn a_quoted_ttl_becomes_a_number() {
    let n = lldp(&lldp_document(&[LLDP_ROW.to_string()])).unwrap().remove(0);
    assert_eq!(n.ttl, 120u32);
    let bare = LLDP_ROW.replace("\"ttl\": \"120\"", "\"ttl\": 121");
    assert_eq!(lldp(&lldp_document(&[bare])).unwrap()[0].ttl, 121);
}

#[test]
fn a_row_without_a_numeric_field_is_refused() {
    let without_ttl = LLDP_ROW.replace("\"ttl\": \"120\",", "");
    assert_eq!(lldp(&lldp_document(&[without_ttl])).err(), Some(Error::MalformedPayload));
    let without_vlan = LLDP_ROW.replace("\"vlan_id\": \"39\",", "");
    assert_eq!(lldp(&lldp_document(&[without_vlan])).err(), Some(Error::MalformedPayload));
    for key in ["ifindex", "nativevlan", "mtu", "ttl"] {
        let renamed = CDP_ROW.replace(&format!("\"{}\"", key), "\"other\"");
        assert_eq!(cdp(&cdp_document(&[renamed])).err(), Some(Error::MalformedPayload));
    }
}

#[test]
fn a_numeric_field_that_holds_no_number_is_refused() {
    for bad in ["\"abc\"", "\"\"", "\"12 \"", "\"-1\"", "\"4294967296\"", "null", "1.5", "[120]"] {
        let row = LLDP_ROW.replace("\"ttl\": \"120\"", &format!("\"ttl\": {}", bad));
        assert_eq!(lldp(&lldp_document(&[row])).err(), Some(Error::MalformedPayload), "{}", bad);
        let row = CDP_ROW.replace("\"mtu\": \"1500\"", &format!("\"mtu\": {}", bad));
        assert_eq!(cdp(&cdp_document(&[row])).err(), Some(Error::MalformedPayload), "{}", bad);
    }
}

#[test]
fn a_row_without_a_text_field_is_refused() {
    for key in [
        "chassis_type", "chassis_id", "sys_name", "l_port_id", "system_capability",
        "enabled_capability", "port_type", "port_id", "mgmt_addr_type", "mgmt_addr",
        "mgmt_addr_ipv6_type", "mgmt_addr_ipv6",
    ] {
        let renamed = LLDP_ROW.replace(&format!("\"{}\":", key), "\"other\":");
        let found = lldp(&lldp_document(&[renamed]));
        assert_eq!(found.err(), Some(Error::MalformedPayload), "{}", key);
    }
    for key in [
        "device_id", "vtpname", "v4addr", "v4mgmtaddr", "version", "version_no", "duplexmode",
        "platform_id", "port_id", "intf_id", "capabilities",
    ] {
        let renamed = CDP_ROW.replace(&format!("\"{}\":", key), "\"other\":");
        let found = cdp(&cdp_document(&[renamed]));
        assert_eq!(found.err(), Some(Error::MalformedPayload), "{}", key);
    }
    let number_for_text = LLDP_ROW.replace("\"mgmt0\"", "17");
    assert_eq!(lldp(&lldp_document(&[number_for_text])).err(), Some(Error::MalformedPayload));
    let text_for_list =
        CDP_ROW.replace("[\"router\", \"switch\", \"IGMP_cnd_filtering\"]", "\"router\"");
    assert_eq!(cdp(&cdp_document(&[text_for_list])).err(), Some(Error::MalformedPayload));
}

#[test]
fn one_bad_row_refuses_the_whole_table() {
    let bad = LLDP_ROW.replace("\"39\"", "\"thirty-nine\"");
    for rows in [
        vec![bad.clone(), LLDP_ROW.to_string(), LLDP_ROW.to_string()],
        vec![LLDP_ROW.to_string(), bad.clone(), LLDP_ROW.to_string()],
        vec![LLDP_ROW.to_string(), LLDP_ROW.to_string(), bad.clone()],
    ] {
        assert_eq!(lldp(&lldp_document(&rows)).err(), Some(Error::MalformedPayload));
    }
}

#[test]
fn notices_stay_as_the_device_wrote_them() {
    let n = lldp(&lldp_document(&[LLDP_ROW.to_string()])).unwrap().remove(0);
    assert_eq!(n.management_address_ipv6, "not advertised");
    assert_eq!(n.management_address_ipv6_type, "Address not advertised");
    let row = LLDP_ROW
        .replace("\"1.2.3.4\"", "\"not advertised\"")
        .replace("\"test-hostname\"", "\"\"")
        .replace("\"BR\"", "\" B, R \"");
    let n = lldp(&lldp_document(&[row])).unwrap().remove(0);
    assert_eq!(n.management_address, "not advertised");
    assert_eq!(n.remote_device, "");
    assert_eq!(n.system_capability, " B, R ");
    assert_eq!(n.enabled_capability, " B, R ");
}

#[test]
fn the_nesting_must_be_table_then_rows() {
    for text in [
        "",
        "not json",
        "{}",
        "[]",
        "{\"TABLE_nbor_detail\": {}}",
        "{\"TABLE_nbor_detail\": []}",
        "{\"TABLE_nbor_detail\": {\"ROW_nbor_detail\": {}}}",
        "{\"TABLE_nbor_detail\": {\"ROW_nbor_detail\": null}}",
        "{\"TABLE_nbor_detail\": {\"ROW_nbor_detail\": [[]]}}",
        "{\"TABLE_nbor_detail\": {\"ROW_nbor_detail\": [17]}}",
        "{\"ROW_nbor_detail\": []}",
        "{\"TABLE_cdp_neighbor_detail_info\": {\"ROW_cdp_neighbor_detail_info\": []}}",
    ] {
        assert_eq!(lldp(text).err(), Some(Error::MalformedPayload), "{}", text);
    }
    assert_eq!(cdp(&lldp_document(&[])).err(), Some(Error::MalformedPayload));
    assert_eq!(cdp(&cdp_document(&[LLDP_ROW.to_string()])).err(), Some(Error::MalformedPayload));
    assert_eq!(lldp(&lldp_document(&[CDP_ROW.to_string()])).err(), Some(Error::MalformedPayload));
}

#[test]
fn a_single_row_given_as_an_object_is_refused() {
    let text = format!("{{\"TABLE_nbor_detail\": {{\"ROW_nbor_detail\": {}}}}}", LLDP_ROW);
    assert_eq!(lldp(&text).err(), Some(Error::MalformedPayload));
}

#[test]
fn other_members_of_the_document_do_not_count() {
    let text = format!(
        "{{\"count\": \"1\", \"TABLE_nbor_detail\": {{\"x\": 1, \"ROW_nbor_detail\": [{}]}}}}",
        LLDP_ROW
    );
    assert_eq!(lldp(&text).unwrap().len(), 1);
}

#[test]
fn the_exit_code_plays_no_part_in_decoding() {
    let mut result = printed(&lldp_document(&[LLDP_ROW.to_string()]));
    result.status = Some(1);
    assert_eq!(get_lldp_neighbors(&result).unwrap().len(), 1);
}

#[test]
fn each_level_has_its_decoder() {
    let row = parse_document(LLDP_ROW).unwrap();
    assert_eq!(LLDPNeighbor::from_json(&row).unwrap().vlan_id, 39);
    let table = parse_document(&format!("{{\"ROW_nbor_detail\": [{}]}}", LLDP_ROW)).unwrap();
    assert_eq!(LLDPNeighborsTable::from_json(&table).unwrap().neighbors.len(), 1);
    let row = parse_document(CDP_ROW).unwrap();
    assert_eq!(CDPNeighbor::from_json(&row).unwrap().mtu, 1500);
    let table =
        parse_document(&format!("{{\"ROW_cdp_neighbor_detail_info\": [{}]}}", CDP_ROW)).unwrap();
    assert_eq!(CDPNeighborsTable::from_json(&table).unwrap().neighbors.len(), 1);
    let document = parse_document(&cdp_document(&[CDP_ROW.to_string()])).unwrap();
    let read = ShowCDPNeighborsResult::from_json(&document).unwrap();
    assert_eq!(read.neighbors_table.neighbors[0].ttl, 179);
    assert_eq!(LLDPNeighbor::from_json(&table).err(), Some(Error::MalformedPayload));
}

#[test]
fn a_source_reads_by_its_own_schema() {
    assert_eq!(LLDP_NEIGHBORS_COMMAND, "show lldp neighbors detail");
    assert_eq!(CDP_NEIGHBORS_COMMAND, "show cdp neighbors detail");
    assert_eq!(NeighborSource::Lldp.command(), LLDP_NEIGHBORS_COMMAND);
    assert_eq!(NeighborSource::Cdp.command(), CDP_NEIGHBORS_COMMAND);
    let lldp_output = printed(&lldp_document(&[LLDP_ROW.to_string()]));
    let cdp_output = printed(&cdp_document(&[CDP_ROW.to_string(), CDP_ROW.to_string()]));
    match NeighborSource::Lldp.neighbors(&lldp_output) {
        Ok(Neighbors::Lldp(list)) => assert_eq!(list.len(), 1),
        other => panic!("{:?}", other),
    }
    match NeighborSource::Cdp.neighbors(&cdp_output) {
        Ok(Neighbors::Cdp(list)) => assert_eq!(list.len(), 2),
        other => panic!("{:?}", other),
    }
    assert_eq!(NeighborSource::Lldp.neighbors(&cdp_output).err(), Some(Error::MalformedPayload));
    assert_eq!(NeighborSource::Cdp.neighbors(&lldp_output).err(), Some(Error::MalformedPayload));
}
