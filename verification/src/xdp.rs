//! The neighbours that the discovery protocols LLDP and CDP report, read from
//! the JSON that the shell prints.
//!
//! Both tables have the same nesting: an object whose table key holds an
//! object whose row key holds the array of rows. The keys and the fields of a
//! row differ between the two protocols.

use crate::command::CommandResult;
use crate::error::Error;
use crate::json::{
    as_list, collect, items_of, json_tree, json_trees, lemma_collect, member, member_of,
    number_at, number_field, parsed_json, string_views, text_at, text_field, text_list_field,
    texts_at, Json,
};
use vstd::prelude::*;

verus! {

/// The command that prints the LLDP neighbours; `json_command` makes it print JSON.
pub const LLDP_NEIGHBORS_COMMAND: &'static str = "show lldp neighbors detail";

/// The command that prints the CDP neighbours; `json_command` makes it print JSON.
pub const CDP_NEIGHBORS_COMMAND: &'static str = "show cdp neighbors detail";

/// One neighbour that LLDP reports.
#[derive(Debug)]
pub struct LLDPNeighbor {
    pub remote_device_id_type: String,
    pub remote_device_id: String,
    pub remote_device: String,
    pub local_port: String,
    pub ttl: u32,
    pub vlan_id: u32,
    pub system_capability: String,
    pub enabled_capability: String,
    pub port_type: String,
    pub remote_port: String,
    pub management_address_type: String,
    pub management_address: String,
    pub management_address_ipv6_type: String,
    pub management_address_ipv6: String,
}

/// What an `LLDPNeighbor` holds.
pub struct LldpNeighborView {
    pub remote_device_id_type: Seq<char>,
    pub remote_device_id: Seq<char>,
    pub remote_device: Seq<char>,
    pub local_port: Seq<char>,
    pub ttl: u32,
    pub vlan_id: u32,
    pub system_capability: Seq<char>,
    pub enabled_capability: Seq<char>,
    pub port_type: Seq<char>,
    pub remote_port: Seq<char>,
    pub management_address_type: Seq<char>,
    pub management_address: Seq<char>,
    pub management_address_ipv6_type: Seq<char>,
    pub management_address_ipv6: Seq<char>,
}

impl View for LLDPNeighbor {
    type V = LldpNeighborView;

    open spec fn view(&self) -> LldpNeighborView {
        LldpNeighborView {
            remote_device_id_type: self.remote_device_id_type@,
            remote_device_id: self.remote_device_id@,
            remote_device: self.remote_device@,
            local_port: self.local_port@,
            ttl: self.ttl,
            vlan_id: self.vlan_id,
            system_capability: self.system_capability@,
            enabled_capability: self.enabled_capability@,
            port_type: self.port_type@,
            remote_port: self.remote_port@,
            management_address_type: self.management_address_type@,
            management_address: self.management_address@,
            management_address_ipv6_type: self.management_address_ipv6_type@,
            management_address_ipv6: self.management_address_ipv6@,
        }
    }
}

/// Whether a row holds every field of an LLDP neighbour: twelve strings, and
/// `ttl` and `vlan_id` as numbers.
pub open spec fn is_lldp_row(row: Json) -> bool {
    &&& text_at(row, "chassis_type"@) is Some
    &&& text_at(row, "chassis_id"@) is Some
    &&& text_at(row, "sys_name"@) is Some
    &&& text_at(row, "l_port_id"@) is Some
    &&& number_at(row, "ttl"@) is Some
    &&& number_at(row, "vlan_id"@) is Some
    &&& text_at(row, "system_capability"@) is Some
    &&& text_at(row, "enabled_capability"@) is Some
    &&& text_at(row, "port_type"@) is Some
    &&& text_at(row, "port_id"@) is Some
    &&& text_at(row, "mgmt_addr_type"@) is Some
    &&& text_at(row, "mgmt_addr"@) is Some
    &&& text_at(row, "mgmt_addr_ipv6_type"@) is Some
    &&& text_at(row, "mgmt_addr_ipv6"@) is Some
}

/// The LLDP neighbour that a row describes: each field under its key of the
/// row, the strings as they stand.
pub open spec fn lldp_neighbor_of(row: Json) -> Option<LldpNeighborView> {
    if is_lldp_row(row) {
        Some(
            LldpNeighborView {
                remote_device_id_type: text_at(row, "chassis_type"@)->0,
                remote_device_id: text_at(row, "chassis_id"@)->0,
                remote_device: text_at(row, "sys_name"@)->0,
                local_port: text_at(row, "l_port_id"@)->0,
                ttl: number_at(row, "ttl"@)->0,
                vlan_id: number_at(row, "vlan_id"@)->0,
                system_capability: text_at(row, "system_capability"@)->0,
                enabled_capability: text_at(row, "enabled_capability"@)->0,
                port_type: text_at(row, "port_type"@)->0,
                remote_port: text_at(row, "port_id"@)->0,
                management_address_type: text_at(row, "mgmt_addr_type"@)->0,
                management_address: text_at(row, "mgmt_addr"@)->0,
                management_address_ipv6_type: text_at(row, "mgmt_addr_ipv6_type"@)->0,
                management_address_ipv6: text_at(row, "mgmt_addr_ipv6"@)->0,
            },
        )
    } else {
        None
    }
}

impl LLDPNeighbor {
    /// Reads one row of the LLDP table. A row that lacks a field, or holds
    /// one of the wrong kind, is refused.
    pub fn from_json(row: &serde_json::Value) -> (r: Result<LLDPNeighbor, Error>)
        ensures
            match r {
                Ok(neighbor) => lldp_neighbor_of(json_tree(*row)) == Some(neighbor@),
                Err(e) => e == Error::MalformedPayload && lldp_neighbor_of(json_tree(*row))
                    is None,
            },
    {
        let remote_device_id_type = text_field(row, "chassis_type")?;
        let remote_device_id = text_field(row, "chassis_id")?;
        let remote_device = text_field(row, "sys_name")?;
        let local_port = text_field(row, "l_port_id")?;
        let ttl = number_field(row, "ttl")?;
        let vlan_id = number_field(row, "vlan_id")?;
        let system_capability = text_field(row, "system_capability")?;
        let enabled_capability = text_field(row, "enabled_capability")?;
        let port_type = text_field(row, "port_type")?;
        let remote_port = text_field(row, "port_id")?;
        let management_address_type = text_field(row, "mgmt_addr_type")?;
        let management_address = text_field(row, "mgmt_addr")?;
        let management_address_ipv6_type = text_field(row, "mgmt_addr_ipv6_type")?;
        let management_address_ipv6 = text_field(row, "mgmt_addr_ipv6")?;
        Ok(
            LLDPNeighbor {
                remote_device_id_type,
                remote_device_id,
                remote_device,
                local_port,
                ttl,
                vlan_id,
                system_capability,
                enabled_capability,
                port_type,
                remote_port,
                management_address_type,
                management_address,
                management_address_ipv6_type,
                management_address_ipv6,
            },
        )
    }
}

/// What a vector of LLDP neighbours holds.
pub open spec fn lldp_views(neighbors: Seq<LLDPNeighbor>) -> Seq<LldpNeighborView> {
    neighbors.map_values(|n: LLDPNeighbor| n@)
}

/// The LLDP neighbour that each row describes, where it describes one.
pub open spec fn lldp_neighbors_in(rows: Seq<Json>) -> Seq<Option<LldpNeighborView>> {
    rows.map_values(|row: Json| lldp_neighbor_of(row))
}

/// The neighbours of an LLDP table: the rows of the array under
/// `ROW_nbor_detail`, in their order. One row that is refused leaves nothing.
pub open spec fn lldp_table_of(table: Json) -> Option<Seq<LldpNeighborView>> {
    match member_of(table, "ROW_nbor_detail"@) {
        Some(found) => match items_of(found) {
            Some(rows) => collect(lldp_neighbors_in(rows)),
            None => None,
        },
        None => None,
    }
}

/// The neighbours of a document: those of the table under `TABLE_nbor_detail`.
pub open spec fn lldp_result_of(document: Json) -> Option<Seq<LldpNeighborView>> {
    match member_of(document, "TABLE_nbor_detail"@) {
        Some(table) => lldp_table_of(table),
        None => None,
    }
}

/// The neighbours that a text describes, where it is a JSON document that
/// holds an LLDP table.
pub open spec fn lldp_neighbors_of(text: Seq<char>) -> Option<Seq<LldpNeighborView>> {
    match parsed_json(text) {
        Some(document) => lldp_result_of(document),
        None => None,
    }
}

/// The rows of an LLDP table.
#[derive(Debug)]
pub struct LLDPNeighborsTable {
    pub neighbors: Vec<LLDPNeighbor>,
}

/// The document that the shell prints for the LLDP neighbours.
#[derive(Debug)]
pub struct ShowLLDPNeighborsResult {
    pub neighbors_table: LLDPNeighborsTable,
}

impl LLDPNeighborsTable {
    /// Reads the table: every row of the array under `ROW_nbor_detail`, in
    /// the order of the array. An array without rows is a table without
    /// neighbours. One row that is refused refuses the table.
    pub fn from_json(table: &serde_json::Value) -> (r: Result<LLDPNeighborsTable, Error>)
        ensures
            match r {
                Ok(read) => lldp_table_of(json_tree(*table)) == Some(lldp_views(read.neighbors@)),
                Err(e) => e == Error::MalformedPayload && lldp_table_of(json_tree(*table))
                    is None,
            },
    {
        let found = match member(table, "ROW_nbor_detail") {
            Some(found) => found,
            None => {
                return Err(Error::MalformedPayload);
            },
        };
        let items = match as_list(found) {
            Some(items) => items,
            None => {
                return Err(Error::MalformedPayload);
            },
        };
        let ghost rows = json_trees(items@);
        let ghost decoded = lldp_neighbors_in(rows);
        let mut neighbors: Vec<LLDPNeighbor> = Vec::new();
        let mut i: usize = 0;
        while i < items.len()
            invariant
                i <= items.len(),
                rows == json_trees(items@),
                decoded == lldp_neighbors_in(rows),
                lldp_table_of(json_tree(*table)) == collect(decoded),
                neighbors@.len() == i,
                forall|k: int| 0 <= k < i ==> lldp_neighbor_of(rows[k]) == Some(
                    #[trigger] neighbors@[k]@,
                ),
            decreases items.len() - i,
        {
            match LLDPNeighbor::from_json(&items[i]) {
                Ok(neighbor) => {
                    neighbors.push(neighbor);
                },
                Err(_) => {
                    proof {
                        assert(decoded[i as int] is None);
                    }
                    return Err(Error::MalformedPayload);
                },
            }
            i += 1;
        }
        proof {
            assert forall|k: int| 0 <= k < decoded.len() implies (#[trigger] decoded[k])
                is Some by {
                assert(lldp_neighbor_of(rows[k]) == Some(neighbors@[k]@));
            }
            assert(lldp_views(neighbors@) =~= decoded.map_values(
                |x: Option<LldpNeighborView>| x->0,
            )) by {
                assert forall|k: int| 0 <= k < neighbors@.len() implies lldp_views(
                    neighbors@,
                )[k] == decoded[k]->0 by {
                    assert(lldp_neighbor_of(rows[k]) == Some(neighbors@[k]@));
                }
            }
        }
        Ok(LLDPNeighborsTable { neighbors })
    }
}

impl ShowLLDPNeighborsResult {
    /// Reads the document: the table under `TABLE_nbor_detail`.
    pub fn from_json(document: &serde_json::Value) -> (r: Result<ShowLLDPNeighborsResult, Error>)
        ensures
            match r {
                Ok(read) => lldp_result_of(json_tree(*document)) == Some(
                    lldp_views(read.neighbors_table.neighbors@),
                ),
                Err(e) => e == Error::MalformedPayload && lldp_result_of(json_tree(*document))
                    is None,
            },
    {
        match member(document, "TABLE_nbor_detail") {
            Some(table) => {
                let neighbors_table = LLDPNeighborsTable::from_json(table)?;
                Ok(ShowLLDPNeighborsResult { neighbors_table })
            },
            None => Err(Error::MalformedPayload),
        }
    }
}

/// The LLDP neighbours in what the shell printed for `LLDP_NEIGHBORS_COMMAND`:
/// all of them in the order of the document, or an error. The exit code plays
/// no part.
pub fn get_lldp_neighbors(result: &CommandResult) -> (r: Result<Vec<LLDPNeighbor>, Error>)
    ensures
        match r {
            Ok(neighbors) => lldp_neighbors_of(result.stdout@) == Some(lldp_views(neighbors@)),
            Err(e) => e == Error::MalformedPayload && lldp_neighbors_of(result.stdout@) is None,
        },
{
    let document = result.json()?;
    let read = ShowLLDPNeighborsResult::from_json(&document)?;
    Ok(read.neighbors_table.neighbors)
}

/// One neighbour that CDP reports.
#[derive(Debug)]
pub struct CDPNeighbor {
    pub remote_port_id: u32,
    pub remote_device: String,
    pub vtp_name: String,
    pub ip_address: String,
    pub management_address: String,
    pub remote_version: String,
    pub cdp_version: String,
    pub native_vlan: u32,
    pub duplex_mode: String,
    pub mtu: u32,
    pub remote_device_id_type: String,
    pub remote_port: String,
    pub remote_interface: String,
    pub ttl: u32,
    pub capabilities: Vec<String>,
}

/// What a `CDPNeighbor` holds.
pub struct CdpNeighborView {
    pub remote_port_id: u32,
    pub remote_device: Seq<char>,
    pub vtp_name: Seq<char>,
    pub ip_address: Seq<char>,
    pub management_address: Seq<char>,
    pub remote_version: Seq<char>,
    pub cdp_version: Seq<char>,
    pub native_vlan: u32,
    pub duplex_mode: Seq<char>,
    pub mtu: u32,
    pub remote_device_id_type: Seq<char>,
    pub remote_port: Seq<char>,
    pub remote_interface: Seq<char>,
    pub ttl: u32,
    pub capabilities: Seq<Seq<char>>,
}

impl View for CDPNeighbor {
    type V = CdpNeighborView;

    open spec fn view(&self) -> CdpNeighborView {
        CdpNeighborView {
            remote_port_id: self.remote_port_id,
            remote_device: self.remote_device@,
            vtp_name: self.vtp_name@,
            ip_address: self.ip_address@,
            management_address: self.management_address@,
            remote_version: self.remote_version@,
            cdp_version: self.cdp_version@,
            native_vlan: self.native_vlan,
            duplex_mode: self.duplex_mode@,
            mtu: self.mtu,
            remote_device_id_type: self.remote_device_id_type@,
            remote_port: self.remote_port@,
            remote_interface: self.remote_interface@,
            ttl: self.ttl,
            capabilities: string_views(self.capabilities@),
        }
    }
}

/// Whether a row holds every field of a CDP neighbour: ten strings, the
/// numbers `ifindex`, `nativevlan`, `mtu` and `ttl`, and `capabilities` as an
/// array of strings.
pub open spec fn is_cdp_row(row: Json) -> bool {
    &&& number_at(row, "ifindex"@) is Some
    &&& text_at(row, "device_id"@) is Some
    &&& text_at(row, "vtpname"@) is Some
    &&& text_at(row, "v4addr"@) is Some
    &&& text_at(row, "v4mgmtaddr"@) is Some
    &&& text_at(row, "version"@) is Some
    &&& text_at(row, "version_no"@) is Some
    &&& number_at(row, "nativevlan"@) is Some
    &&& text_at(row, "duplexmode"@) is Some
    &&& number_at(row, "mtu"@) is Some
    &&& text_at(row, "platform_id"@) is Some
    &&& text_at(row, "port_id"@) is Some
    &&& text_at(row, "intf_id"@) is Some
    &&& number_at(row, "ttl"@) is Some
    &&& texts_at(row, "capabilities"@) is Some
}

/// The CDP neighbour that a row describes: each field under its key of the
/// row, the strings as they stand.
pub open spec fn cdp_neighbor_of(row: Json) -> Option<CdpNeighborView> {
    if is_cdp_row(row) {
        Some(
            CdpNeighborView {
                remote_port_id: number_at(row, "ifindex"@)->0,
                remote_device: text_at(row, "device_id"@)->0,
                vtp_name: text_at(row, "vtpname"@)->0,
                ip_address: text_at(row, "v4addr"@)->0,
                management_address: text_at(row, "v4mgmtaddr"@)->0,
                remote_version: text_at(row, "version"@)->0,
                cdp_version: text_at(row, "version_no"@)->0,
                native_vlan: number_at(row, "nativevlan"@)->0,
                duplex_mode: text_at(row, "duplexmode"@)->0,
                mtu: number_at(row, "mtu"@)->0,
                remote_device_id_type: text_at(row, "platform_id"@)->0,
                remote_port: text_at(row, "port_id"@)->0,
                remote_interface: text_at(row, "intf_id"@)->0,
                ttl: number_at(row, "ttl"@)->0,
                capabilities: texts_at(row, "capabilities"@)->0,
            },
        )
    } else {
        None
    }
}

impl CDPNeighbor {
    /// Reads one row of the CDP table. A row that lacks a field, or holds
    /// one of the wrong kind, is refused.
    pub fn from_json(row: &serde_json::Value) -> (r: Result<CDPNeighbor, Error>)
        ensures
            match r {
                Ok(neighbor) => cdp_neighbor_of(json_tree(*row)) == Some(neighbor@),
                Err(e) => e == Error::MalformedPayload && cdp_neighbor_of(json_tree(*row))
                    is None,
            },
    {
        let remote_port_id = number_field(row, "ifindex")?;
        let remote_device = text_field(row, "device_id")?;
        let vtp_name = text_field(row, "vtpname")?;
        let ip_address = text_field(row, "v4addr")?;
        let management_address = text_field(row, "v4mgmtaddr")?;
        let remote_version = text_field(row, "version")?;
        let cdp_version = text_field(row, "version_no")?;
        let native_vlan = number_field(row, "nativevlan")?;
        let duplex_mode = text_field(row, "duplexmode")?;
        let mtu = number_field(row, "mtu")?;
        let remote_device_id_type = text_field(row, "platform_id")?;
        let remote_port = text_field(row, "port_id")?;
        let remote_interface = text_field(row, "intf_id")?;
        let ttl = number_field(row, "ttl")?;
        let capabilities = text_list_field(row, "capabilities")?;
        Ok(
            CDPNeighbor {
                remote_port_id,
                remote_device,
                vtp_name,
                ip_address,
                management_address,
                remote_version,
                cdp_version,
                native_vlan,
                duplex_mode,
                mtu,
                remote_device_id_type,
                remote_port,
                remote_interface,
                ttl,
                capabilities,
            },
        )
    }
}

/// What a vector of CDP neighbours holds.
pub open spec fn cdp_views(neighbors: Seq<CDPNeighbor>) -> Seq<CdpNeighborView> {
    neighbors.map_values(|n: CDPNeighbor| n@)
}

/// The CDP neighbour that each row describes, where it describes one.
pub open spec fn cdp_neighbors_in(rows: Seq<Json>) -> Seq<Option<CdpNeighborView>> {
    rows.map_values(|row: Json| cdp_neighbor_of(row))
}

/// The neighbours of an CDP table: the rows of the array under
/// `ROW_cdp_neighbor_detail_info`, in their order. One row that is refused leaves nothing.
pub open spec fn cdp_table_of(table: Json) -> Option<Seq<CdpNeighborView>> {
    match member_of(table, "ROW_cdp_neighbor_detail_info"@) {
        Some(found) => match items_of(found) {
            Some(rows) => collect(cdp_neighbors_in(rows)),
            None => None,
        },
        None => None,
    }
}

/// The neighbours of a document: those of the table under `TABLE_cdp_neighbor_detail_info`.
pub open spec fn cdp_result_of(document: Json) -> Option<Seq<CdpNeighborView>> {
    match member_of(document, "TABLE_cdp_neighbor_detail_info"@) {
        Some(table) => cdp_table_of(table),
        None => None,
    }
}

/// The neighbours that a text describes, where it is a JSON document that
/// holds an CDP table.
pub open spec fn cdp_neighbors_of(text: Seq<char>) -> Option<Seq<CdpNeighborView>> {
    match parsed_json(text) {
        Some(document) => cdp_result_of(document),
        None => None,
    }
}

/// The rows of an CDP table.
#[derive(Debug)]
pub struct CDPNeighborsTable {
    pub neighbors: Vec<CDPNeighbor>,
}

/// The document that the shell prints for the CDP neighbours.
#[derive(Debug)]
pub struct ShowCDPNeighborsResult {
    pub neighbors_table: CDPNeighborsTable,
}

impl CDPNeighborsTable {
    /// Reads the table: every row of the array under `ROW_cdp_neighbor_detail_info`, in
    /// the order of the array. An array without rows is a table without
    /// neighbours. One row that is refused refuses the table.
    pub fn from_json(table: &serde_json::Value) -> (r: Result<CDPNeighborsTable, Error>)
        ensures
            match r {
                Ok(read) => cdp_table_of(json_tree(*table)) == Some(cdp_views(read.neighbors@)),
                Err(e) => e == Error::MalformedPayload && cdp_table_of(json_tree(*table))
                    is None,
            },
    {
        let found = match member(table, "ROW_cdp_neighbor_detail_info") {
            Some(found) => found,
            None => {
                return Err(Error::MalformedPayload);
            },
        };
        let items = match as_list(found) {
            Some(items) => items,
            None => {
                return Err(Error::MalformedPayload);
            },
        };
        let ghost rows = json_trees(items@);
        let ghost decoded = cdp_neighbors_in(rows);
        let mut neighbors: Vec<CDPNeighbor> = Vec::new();
        let mut i: usize = 0;
        while i < items.len()
            invariant
                i <= items.len(),
                rows == json_trees(items@),
                decoded == cdp_neighbors_in(rows),
                cdp_table_of(json_tree(*table)) == collect(decoded),
                neighbors@.len() == i,
                forall|k: int| 0 <= k < i ==> cdp_neighbor_of(rows[k]) == Some(
                    #[trigger] neighbors@[k]@,
                ),
            decreases items.len() - i,
        {
            match CDPNeighbor::from_json(&items[i]) {
                Ok(neighbor) => {
                    neighbors.push(neighbor);
                },
                Err(_) => {
                    proof {
                        assert(decoded[i as int] is None);
                    }
                    return Err(Error::MalformedPayload);
                },
            }
            i += 1;
        }
        proof {
            assert forall|k: int| 0 <= k < decoded.len() implies (#[trigger] decoded[k])
                is Some by {
                assert(cdp_neighbor_of(rows[k]) == Some(neighbors@[k]@));
            }
            assert(cdp_views(neighbors@) =~= decoded.map_values(
                |x: Option<CdpNeighborView>| x->0,
            )) by {
                assert forall|k: int| 0 <= k < neighbors@.len() implies cdp_views(
                    neighbors@,
                )[k] == decoded[k]->0 by {
                    assert(cdp_neighbor_of(rows[k]) == Some(neighbors@[k]@));
                }
            }
        }
        Ok(CDPNeighborsTable { neighbors })
    }
}

impl ShowCDPNeighborsResult {
    /// Reads the document: the table under `TABLE_cdp_neighbor_detail_info`.
    pub fn from_json(document: &serde_json::Value) -> (r: Result<ShowCDPNeighborsResult, Error>)
        ensures
            match r {
                Ok(read) => cdp_result_of(json_tree(*document)) == Some(
                    cdp_views(read.neighbors_table.neighbors@),
                ),
                Err(e) => e == Error::MalformedPayload && cdp_result_of(json_tree(*document))
                    is None,
            },
    {
        match member(document, "TABLE_cdp_neighbor_detail_info") {
            Some(table) => {
                let neighbors_table = CDPNeighborsTable::from_json(table)?;
                Ok(ShowCDPNeighborsResult { neighbors_table })
            },
            None => Err(Error::MalformedPayload),
        }
    }
}

/// The CDP neighbours in what the shell printed for `CDP_NEIGHBORS_COMMAND`:
/// all of them in the order of the document, or an error. The exit code plays
/// no part.
pub fn get_cdp_neighbors(result: &CommandResult) -> (r: Result<Vec<CDPNeighbor>, Error>)
    ensures
        match r {
            Ok(neighbors) => cdp_neighbors_of(result.stdout@) == Some(cdp_views(neighbors@)),
            Err(e) => e == Error::MalformedPayload && cdp_neighbors_of(result.stdout@) is None,
        },
{
    let document = result.json()?;
    let read = ShowCDPNeighborsResult::from_json(&document)?;
    Ok(read.neighbors_table.neighbors)
}


/// A document whose rows each hold every field decodes to as many LLDP
/// neighbours as it has rows, the neighbour of each row in the place of the
/// row. A document without rows decodes to an empty list.
pub proof fn lemma_lldp_rows_in_order(document: Json, table: Json, rows: Seq<Json>)
    requires
        member_of(document, "TABLE_nbor_detail"@) == Some(table),
        member_of(table, "ROW_nbor_detail"@) == Some(Json::List(rows)),
        forall|i: int| 0 <= i < rows.len() ==> is_lldp_row(#[trigger] rows[i]),
    ensures
        lldp_result_of(document) matches Some(list) && list.len() == rows.len() && forall|i: int|
            0 <= i < rows.len() ==> lldp_neighbor_of(rows[i]) == Some(#[trigger] list[i]),
{
    let found = lldp_neighbors_in(rows);
    assert forall|i: int| 0 <= i < found.len() implies (#[trigger] found[i]) is Some by {
        assert(is_lldp_row(rows[i]));
    }
    lemma_collect(found);
}

/// One row that is refused refuses the whole document: no part of the table comes out.
pub proof fn lemma_lldp_bad_row_refuses_table(
    document: Json,
    table: Json,
    rows: Seq<Json>,
    at: int,
)
    requires
        member_of(document, "TABLE_nbor_detail"@) == Some(table),
        member_of(table, "ROW_nbor_detail"@) == Some(Json::List(rows)),
        0 <= at < rows.len(),
        lldp_neighbor_of(rows[at]) is None,
    ensures
        lldp_result_of(document) is None,
{
    let found = lldp_neighbors_in(rows);
    assert(found[at] is None);
}

/// A row in which a numeric field is missing, or holds what stands for no
/// number, is refused.
pub proof fn lemma_lldp_row_needs_numbers(row: Json)
    requires
        number_at(row, "ttl"@) is None
            || number_at(row, "vlan_id"@) is None,
    ensures
        lldp_neighbor_of(row) is None,
{
}

/// The strings of a neighbour are those of its row, character for character:
/// a notice such as `not advertised` stays what it is.
pub proof fn lemma_lldp_texts_unchanged(row: Json, neighbor: LldpNeighborView)
    requires
        lldp_neighbor_of(row) == Some(neighbor),
    ensures
        member_of(row, "chassis_type"@) == Some(Json::Text(neighbor.remote_device_id_type)),
        member_of(row, "chassis_id"@) == Some(Json::Text(neighbor.remote_device_id)),
        member_of(row, "sys_name"@) == Some(Json::Text(neighbor.remote_device)),
        member_of(row, "l_port_id"@) == Some(Json::Text(neighbor.local_port)),
        member_of(row, "system_capability"@) == Some(Json::Text(neighbor.system_capability)),
        member_of(row, "enabled_capability"@) == Some(Json::Text(neighbor.enabled_capability)),
        member_of(row, "port_type"@) == Some(Json::Text(neighbor.port_type)),
        member_of(row, "port_id"@) == Some(Json::Text(neighbor.remote_port)),
        member_of(row, "mgmt_addr_type"@) == Some(Json::Text(neighbor.management_address_type)),
        member_of(row, "mgmt_addr"@) == Some(Json::Text(neighbor.management_address)),
        member_of(row, "mgmt_addr_ipv6_type"@) == Some(
            Json::Text(neighbor.management_address_ipv6_type),
        ),
        member_of(row, "mgmt_addr_ipv6"@) == Some(Json::Text(neighbor.management_address_ipv6)),
{
}

/// A document whose rows each hold every field decodes to as many CDP
/// neighbours as it has rows, the neighbour of each row in the place of the
/// row. A document without rows decodes to an empty list.
pub proof fn lemma_cdp_rows_in_order(document: Json, table: Json, rows: Seq<Json>)
    requires
        member_of(document, "TABLE_cdp_neighbor_detail_info"@) == Some(table),
        member_of(table, "ROW_cdp_neighbor_detail_info"@) == Some(Json::List(rows)),
        forall|i: int| 0 <= i < rows.len() ==> is_cdp_row(#[trigger] rows[i]),
    ensures
        cdp_result_of(document) matches Some(list) && list.len() == rows.len() && forall|i: int|
            0 <= i < rows.len() ==> cdp_neighbor_of(rows[i]) == Some(#[trigger] list[i]),
{
    let found = cdp_neighbors_in(rows);
    assert forall|i: int| 0 <= i < found.len() implies (#[trigger] found[i]) is Some by {
        assert(is_cdp_row(rows[i]));
    }
    lemma_collect(found);
}

/// One row that is refused refuses the whole document: no part of the table comes out.
pub proof fn lemma_cdp_bad_row_refuses_table(
    document: Json,
    table: Json,
    rows: Seq<Json>,
    at: int,
)
    requires
        member_of(document, "TABLE_cdp_neighbor_detail_info"@) == Some(table),
        member_of(table, "ROW_cdp_neighbor_detail_info"@) == Some(Json::List(rows)),
        0 <= at < rows.len(),
        cdp_neighbor_of(rows[at]) is None,
    ensures
        cdp_result_of(document) is None,
{
    let found = cdp_neighbors_in(rows);
    assert(found[at] is None);
}

/// A row in which a numeric field is missing, or holds what stands for no
/// number, is refused.
pub proof fn lemma_cdp_row_needs_numbers(row: Json)
    requires
        number_at(row, "ifindex"@) is None
            || number_at(row, "nativevlan"@) is None
            || number_at(row, "mtu"@) is None
            || number_at(row, "ttl"@) is None,
    ensures
        cdp_neighbor_of(row) is None,
{
}

/// The strings of a neighbour are those of its row, character for character:
/// a notice such as `not advertised` stays what it is.
pub proof fn lemma_cdp_texts_unchanged(row: Json, neighbor: CdpNeighborView)
    requires
        cdp_neighbor_of(row) == Some(neighbor),
    ensures
        member_of(row, "device_id"@) == Some(Json::Text(neighbor.remote_device)),
        member_of(row, "vtpname"@) == Some(Json::Text(neighbor.vtp_name)),
        member_of(row, "v4addr"@) == Some(Json::Text(neighbor.ip_address)),
        member_of(row, "v4mgmtaddr"@) == Some(Json::Text(neighbor.management_address)),
        member_of(row, "version"@) == Some(Json::Text(neighbor.remote_version)),
        member_of(row, "version_no"@) == Some(Json::Text(neighbor.cdp_version)),
        member_of(row, "duplexmode"@) == Some(Json::Text(neighbor.duplex_mode)),
        member_of(row, "platform_id"@) == Some(Json::Text(neighbor.remote_device_id_type)),
        member_of(row, "port_id"@) == Some(Json::Text(neighbor.remote_port)),
        member_of(row, "intf_id"@) == Some(Json::Text(neighbor.remote_interface)),
{
}

/// The protocol from which the neighbours are taken.
#[derive(Clone, Copy, Debug, PartialEq, Eq, Structural)]
pub enum NeighborSource {
    Lldp,
    Cdp,
}

/// The neighbours that one of the protocols reports.
#[derive(Debug)]
pub enum Neighbors {
    Lldp(Vec<LLDPNeighbor>),
    Cdp(Vec<CDPNeighbor>),
}

impl NeighborSource {
    /// The command that prints the neighbours of this protocol.
    pub fn command(&self) -> (r: &'static str)
        ensures
            r@ == match *self {
                NeighborSource::Lldp => LLDP_NEIGHBORS_COMMAND@,
                NeighborSource::Cdp => CDP_NEIGHBORS_COMMAND@,
            },
    {
        match self {
            NeighborSource::Lldp => LLDP_NEIGHBORS_COMMAND,
            NeighborSource::Cdp => CDP_NEIGHBORS_COMMAND,
        }
    }

    /// The neighbours in what the shell printed for the command of this
    /// protocol, read by the schema of this protocol.
    pub fn neighbors(&self, result: &CommandResult) -> (r: Result<Neighbors, Error>)
        ensures
            match *self {
                NeighborSource::Lldp => match r {
                    Ok(found) => found matches Neighbors::Lldp(list) && lldp_neighbors_of(
                        result.stdout@,
                    ) == Some(lldp_views(list@)),
                    Err(e) => e == Error::MalformedPayload && lldp_neighbors_of(result.stdout@)
                        is None,
                },
                NeighborSource::Cdp => match r {
                    Ok(found) => found matches Neighbors::Cdp(list) && cdp_neighbors_of(
                        result.stdout@,
                    ) == Some(cdp_views(list@)),
                    Err(e) => e == Error::MalformedPayload && cdp_neighbors_of(result.stdout@)
                        is None,
                },
            },
    {
        match self {
            NeighborSource::Lldp => {
                let list = get_lldp_neighbors(result)?;
                Ok(Neighbors::Lldp(list))
            },
            NeighborSource::Cdp => {
                let list = get_cdp_neighbors(result)?;
                Ok(Neighbors::Cdp(list))
            },
        }
    }
}

} // verus!
