//! The viewer's heading and the facts about its machine and connection.
use vstd::prelude::*;

use super::session::Status;
use crate::text::{concat3, decimal, decimal_of, opt_text};

verus! {

/// Who the session's creator says the machine is.
pub struct DeviceIdentity {
    pub machine_name: Option<String>,
    pub hostname: Option<String>,
    pub tailscale_name: Option<String>,
    pub ip_addresses: Vec<String>,
}

/// The SSH host in front of the desktop.
pub struct SshHop {
    pub label: String,
    pub port: Option<u16>,
}

/// A fact and what it is called.
pub struct Row {
    pub label: &'static str,
    pub value: String,
}

pub open spec fn row_views(rows: Seq<Row>) -> Seq<(Seq<char>, Seq<char>)> {
    rows.map_values(|r: Row| (r.label@, r.value@))
}

pub open spec fn opt_row(label: Seq<char>, value: Option<String>) -> Seq<(Seq<char>, Seq<char>)> {
    match value {
        Some(v) => seq![(label, v@)],
        None => Seq::empty(),
    }
}

pub open spec fn identity_rows(identity: DeviceIdentity) -> Seq<(Seq<char>, Seq<char>)> {
    opt_row("Name"@, identity.machine_name) + opt_row("Hostname"@, identity.hostname) + opt_row(
        "Tailscale"@,
        identity.tailscale_name,
    ) + identity.ip_addresses@.map_values(|ip: String| ("IP address"@, ip@))
}

fn push_opt(rows: &mut Vec<Row>, label: &'static str, value: &Option<String>)
    ensures
        row_views(final(rows)@) == row_views(old(rows)@) + opt_row(label@, *value),
{
    let ghost before = row_views(rows@);
    if let Some(v) = value {
        rows.push(Row { label, value: v.clone() });
    }
    assert(row_views(rows@) =~= before + opt_row(label@, *value));
}

fn push(rows: &mut Vec<Row>, label: &'static str, value: String)
    ensures
        row_views(final(rows)@) == row_views(old(rows)@).push((label@, value@)),
{
    let ghost before = row_views(rows@);
    let ghost text = value@;
    rows.push(Row { label, value });
    assert(row_views(rows@) =~= before.push((label@, text)));
}

/// What is known of the machine.
pub fn machine_rows(identity: &DeviceIdentity) -> (rows: Vec<Row>)
    ensures
        row_views(rows@) == identity_rows(*identity),
{
    let mut rows: Vec<Row> = Vec::new();
    assert(row_views(rows@) =~= Seq::<(Seq<char>, Seq<char>)>::empty());
    push_opt(&mut rows, "Name", &identity.machine_name);
    push_opt(&mut rows, "Hostname", &identity.hostname);
    push_opt(&mut rows, "Tailscale", &identity.tailscale_name);
    let ghost head = row_views(rows@);
    let ghost ips = identity.ip_addresses@.map_values(|ip: String| ("IP address"@, ip@));
    let mut i: usize = 0;
    assert(row_views(rows@) =~= head + ips.take(0));
    while i < identity.ip_addresses.len()
        invariant
            i <= identity.ip_addresses@.len(),
            ips == identity.ip_addresses@.map_values(|ip: String| ("IP address"@, ip@)),
            row_views(rows@) == head + ips.take(i as int),
        decreases identity.ip_addresses@.len() - i,
    {
        push(&mut rows, "IP address", identity.ip_addresses[i].clone());
        assert(row_views(rows@) =~= head + ips.take(i + 1));
        i = i + 1;
    }
    assert(ips.take(i as int) =~= ips);
    assert(row_views(rows@) =~= identity_rows(*identity));
    rows
}

pub open spec fn port_row(port: Option<u16>) -> Seq<(Seq<char>, Seq<char>)> {
    match port {
        Some(p) => seq![("SSH port"@, decimal(p as nat))],
        None => Seq::empty(),
    }
}

/// The way to the desktop.
pub open spec fn route_view(hop: Option<SshHop>, endpoint: Seq<char>) -> Seq<
    (Seq<char>, Seq<char>),
> {
    match hop {
        Some(hop) => (seq![("SSH host"@, hop.label@)] + port_row(hop.port)).push(
            ("Remote endpoint"@, endpoint),
        ),
        None => seq![("Local endpoint"@, endpoint)],
    }
}

pub fn route_rows(hop: &Option<SshHop>, endpoint: &str) -> (rows: Vec<Row>)
    ensures
        row_views(rows@) == route_view(*hop, endpoint@),
{
    let mut rows: Vec<Row> = Vec::new();
    assert(row_views(rows@) =~= Seq::<(Seq<char>, Seq<char>)>::empty());
    match hop {
        Some(hop) => {
            push(&mut rows, "SSH host", hop.label.clone());
            if let Some(port) = hop.port {
                push(&mut rows, "SSH port", decimal_of(port as u64));
            }
            push(&mut rows, "Remote endpoint", endpoint.to_owned());
        },
        None => {
            push(&mut rows, "Local endpoint", endpoint.to_owned());
        },
    }
    assert(row_views(rows@) =~= route_view(*hop, endpoint@));
    rows
}

pub open spec fn size_row(size: Option<(usize, usize)>) -> Seq<(Seq<char>, Seq<char>)> {
    match size {
        Some((w, h)) => seq![
            ("Resolution"@, decimal(w as nat) + " × "@ + decimal(h as nat)),
        ],
        None => Seq::empty(),
    }
}

/// What the server has told of itself.
pub fn server_rows(name: &Option<String>, size: Option<(usize, usize)>) -> (rows: Vec<Row>)
    ensures
        row_views(rows@) == opt_row("VNC name"@, *name) + size_row(size),
{
    let mut rows: Vec<Row> = Vec::new();
    assert(row_views(rows@) =~= Seq::<(Seq<char>, Seq<char>)>::empty());
    push_opt(&mut rows, "VNC name", name);
    if let Some((width, height)) = size {
        push(
            &mut rows,
            "Resolution",
            concat3(decimal_of(width as u64).as_str(), " × ", decimal_of(height as u64).as_str()),
        );
    }
    assert(row_views(rows@) =~= opt_row("VNC name"@, *name) + size_row(size));
    rows
}

/// The line above those rows; it is missing where there are none.
pub fn server_caption(known: bool, connected: bool) -> (caption: Option<&'static str>)
    ensures
        (caption is Some) == known,
        caption matches Some(text) ==> text@ == (if connected {
            "Server-reported"@
        } else {
            "Server-reported (disconnected)"@
        }),
{
    if !known {
        None
    } else if connected {
        Some("Server-reported")
    } else {
        Some("Server-reported (disconnected)")
    }
}

/// The line under the connection's facts, where nothing names the machine.
pub fn name_caption(name: &Option<String>) -> (caption: Option<&'static str>)
    ensures
        (caption is Some) == (*name is None),
        caption matches Some(text) ==> text@ == "Machine name unavailable"@,
{
    if name.is_none() {
        Some("Machine name unavailable")
    } else {
        None
    }
}

/// The viewer's heading.
pub struct Heading {
    pub title: String,
    pub subtitle: String,
    /// Where the title comes from, if it is a name.
    pub source: Option<&'static str>,
    pub status: &'static str,
    /// Unless a person interacts with it, a desktop is only looked at.
    pub access: Option<&'static str>,
    pub note: Option<String>,
}

/// A name stands above its endpoint, an endpoint above what it is.
pub fn heading(
    name: &Option<String>,
    name_is_supplied: bool,
    endpoint: &str,
    over_ssh: bool,
    status: &Status,
    interact: bool,
) -> (heading: Heading)
    ensures
        heading.title@ == (match *name {
            Some(n) => n@,
            None => endpoint@,
        }),
        heading.subtitle@ == (if *name is Some {
            endpoint@
        } else if over_ssh {
            "VNC desktop over SSH"@
        } else {
            "VNC desktop"@
        }),
        (heading.source is Some) == (*name is Some),
        heading.source matches Some(text) ==> text@ == (if name_is_supplied {
            "Supplied name"@
        } else {
            "VNC name"@
        }),
        heading.status@ == (match *status {
            Status::Stopped => "Stopped"@,
            Status::Connecting => "Connecting…"@,
            Status::Connected => "Connected"@,
            Status::Disconnected(_) => "Disconnected"@,
        }),
        (heading.access is Some) == !interact,
        heading.access matches Some(text) ==> text@ == "Read-only"@,
        opt_text(heading.note) == (match *status {
            Status::Disconnected(error) => Some(error@),
            Status::Stopped => Some("Select Reconnect to view this desktop."@),
            Status::Connecting | Status::Connected => None,
        }),
{
    let title = match name {
        Some(n) => n.clone(),
        None => endpoint.to_owned(),
    };
    let subtitle = if name.is_some() {
        endpoint.to_owned()
    } else if over_ssh {
        "VNC desktop over SSH".to_owned()
    } else {
        "VNC desktop".to_owned()
    };
    let source = if name.is_none() {
        None
    } else if name_is_supplied {
        Some("Supplied name")
    } else {
        Some("VNC name")
    };
    let (label, note) = match status {
        Status::Stopped => (
            "Stopped",
            Some("Select Reconnect to view this desktop.".to_owned()),
        ),
        Status::Connecting => ("Connecting…", None),
        Status::Connected => ("Connected", None),
        Status::Disconnected(error) => ("Disconnected", Some(error.clone())),
    };
    let access = if interact {
        None
    } else {
        Some("Read-only")
    };
    Heading { title, subtitle, source, status: label, access, note }
}

/// A machine's facts come in a fixed order, each that is known once, and every
/// address has a row of its own.
pub proof fn law_machines_are_described_in_order(identity: DeviceIdentity, k: int)
    requires
        identity.machine_name is Some,
        identity.hostname is Some,
        identity.tailscale_name is Some,
        0 <= k < identity.ip_addresses@.len(),
    ensures
        ({
            let rows = identity_rows(identity);
            &&& rows.len() == 3 + identity.ip_addresses@.len()
            &&& rows[0] == ("Name"@, identity.machine_name->0@)
            &&& rows[1] == ("Hostname"@, identity.hostname->0@)
            &&& rows[2] == ("Tailscale"@, identity.tailscale_name->0@)
            &&& rows[3 + k] == ("IP address"@, identity.ip_addresses@[k]@)
        }),
{
}

/// What is not known of a machine has no row, whatever else has one.
pub proof fn law_unknown_facts_have_no_row(identity: DeviceIdentity)
    requires
        identity.machine_name is None,
        identity.tailscale_name is None,
    ensures
        identity.hostname matches Some(name) ==> identity_rows(identity) =~= seq![
            ("Hostname"@, name@),
        ] + identity.ip_addresses@.map_values(|ip: String| ("IP address"@, ip@)),
        identity.hostname is None ==> identity_rows(identity).len()
            == identity.ip_addresses@.len(),
{
}

/// A desktop behind a host is at its remote endpoint, after that host and its
/// port; one without is local.
pub proof fn law_routes_end_at_the_endpoint(hop: Option<SshHop>, endpoint: Seq<char>)
    ensures
        ({
            let rows = route_view(hop, endpoint);
            &&& rows.len() > 0 && rows.last().1 == endpoint
            &&& hop is None ==> rows =~= seq![("Local endpoint"@, endpoint)]
            &&& hop matches Some(h) ==> {
                &&& rows[0] == ("SSH host"@, h.label@)
                &&& rows.last().0 == "Remote endpoint"@
                &&& h.port is None ==> rows.len() == 2
                &&& h.port matches Some(port) ==> rows.len() == 3 && rows[1] == (
                    "SSH port"@,
                    decimal(port as nat),
                )
            }
        }),
{
}

/// A resolution is written width before height.
pub proof fn law_resolutions_are_width_by_height(width: usize, height: usize)
    ensures
        size_row(Some((width, height))) =~= seq![
            ("Resolution"@, decimal(width as nat) + " × "@ + decimal(height as nat)),
        ],
        size_row(None).len() == 0,
{
}

/// Rows are seen by label and value, in their order.
pub proof fn law_rows_are_seen_in_order(list: Seq<Row>, k: int)
    requires
        0 <= k < list.len(),
    ensures
        row_views(list).len() == list.len(),
        row_views(list)[k] == (list[k].label@, list[k].value@),
{
}

} // verus!
