//! The network snapshot: one report built from the interface table, the
//! reachability probe and the Wi-Fi probe.
use vstd::prelude::*;
use crate::address::{address_summary, summary_of, IpAddress};
use crate::wifi::{opt_bytes, opt_view, wifi_from_tool_output, wifi_report, WifiPlatform};

verus! {

/// One entry of the operating system's interface table.
pub struct RawInterface {
    pub name: String,
    pub addresses: Vec<IpAddress>,
}

/// An interface as the snapshot reports it.
pub struct NetworkInterfaceInfo {
    pub name: String,
    /// The interface's IPv4 addresses joined by `", "`, or `"N/A"`.
    pub ip: String,
}

/// A point-in-time report of the host's network status.
pub struct NetworkDetails {
    pub online: bool,
    pub interfaces: Vec<NetworkInterfaceInfo>,
    pub internet_accessible: bool,
    pub ssid: Option<String>,
    pub signal_strength: Option<i32>,
}

impl NetworkInterfaceInfo {
    /// This entry reports the table entry `raw`.
    pub open spec fn describes(&self, raw: RawInterface) -> bool {
        self.name@ == raw.name@ && self.ip@ == summary_of(raw.addresses@)
    }
}

impl NetworkDetails {
    /// Online exactly where some interface is listed; a signal strength only
    /// beside a network name.
    pub open spec fn wf(&self) -> bool {
        &&& self.online == (self.interfaces.len() > 0)
        &&& (self.signal_strength is Some ==> self.ssid is Some)
    }

    /// The names and address summaries of the listed interfaces.
    pub open spec fn interfaces_view(&self) -> Seq<(Seq<char>, Seq<char>)> {
        self.interfaces@.map_values(|i: NetworkInterfaceInfo| (i.name@, i.ip@))
    }

    /// This report is the one that the interface table `raws`, the
    /// reachability result `reachable` and the Wi-Fi reading `wifi` make.
    pub open spec fn reports(
        &self,
        raws: Seq<RawInterface>,
        reachable: bool,
        wifi: (Option<Seq<char>>, Option<i32>),
    ) -> bool {
        &&& self.wf()
        &&& self.interfaces.len() == raws.len()
        &&& forall|i: int| 0 <= i < raws.len() ==> #[trigger] self.interfaces@[i].describes(raws[i])
        &&& self.internet_accessible == reachable
        &&& opt_view(self.ssid) == wifi.0
        &&& self.signal_strength == (if wifi.0 is Some {
            wifi.1
        } else {
            None
        })
    }
}

/// The message returned where the interface table cannot be read.
pub open spec fn query_error_message(e: Seq<char>) -> Seq<char> {
    "Failed to get network interfaces: "@ + e
}

/// The report of one table entry.
pub fn describe_interface(raw: &RawInterface) -> (r: NetworkInterfaceInfo)
    ensures
        r.describes(*raw),
{
    NetworkInterfaceInfo { name: raw.name.clone(), ip: address_summary(&raw.addresses) }
}

/// The reports of the table entries, in their order.
pub fn describe_interfaces(raws: &Vec<RawInterface>) -> (r: Vec<NetworkInterfaceInfo>)
    ensures
        r.len() == raws.len(),
        forall|i: int| 0 <= i < raws.len() ==> #[trigger] r@[i].describes(raws@[i]),
{
    let mut out: Vec<NetworkInterfaceInfo> = Vec::new();
    let mut i: usize = 0;
    while i < raws.len()
        invariant
            i <= raws.len(),
            out.len() == i,
            forall|j: int| 0 <= j < i ==> #[trigger] out@[j].describes(raws@[j]),
        decreases raws.len() - i,
    {
        out.push(describe_interface(&raws[i]));
        i = i + 1;
    }
    out
}

/// Builds the snapshot from the three probes' results: the interface table
/// (or the text of the error that reading it gave), whether the
/// reachability request got a response, and what the platform's Wi-Fi tool
/// printed (`None` where it could not be run). Only a failed interface query
/// fails the snapshot.
pub fn get_network_details(
    interfaces: Result<Vec<RawInterface>, String>,
    internet_accessible: bool,
    platform: WifiPlatform,
    wifi_output: Option<Vec<u8>>,
) -> (r: Result<NetworkDetails, String>)
    ensures
        match interfaces {
            Ok(raws) => r is Ok && r->Ok_0.reports(
                raws@,
                internet_accessible,
                wifi_report(platform, opt_bytes(wifi_output)),
            ),
            Err(e) => r is Err && r->Err_0@ == query_error_message(e@),
        },
{
    match interfaces {
        Err(e) => {
            let mut msg = String::from_str("Failed to get network interfaces: ");
            msg.append(e.as_str());
            Err(msg)
        },
        Ok(raws) => {
            let infos = describe_interfaces(&raws);
            let (ssid, signal) = wifi_from_tool_output(platform, &wifi_output);
            let signal_strength = if ssid.is_some() {
                signal
            } else {
                None
            };
            Ok(
                NetworkDetails {
                    online: infos.len() > 0,
                    interfaces: infos,
                    internet_accessible,
                    ssid,
                    signal_strength,
                },
            )
        },
    }
}

/// Every snapshot that `get_network_details` reports is well formed: it is
/// online exactly where it lists an interface, and it gives a signal strength
/// only beside a network name.
pub proof fn lemma_reported_snapshot_well_formed(
    d: NetworkDetails,
    raws: Seq<RawInterface>,
    reachable: bool,
    wifi: (Option<Seq<char>>, Option<i32>),
)
    requires
        d.reports(raws, reachable, wifi),
    ensures
        d.online == (d.interfaces.len() > 0),
        d.signal_strength is Some ==> d.ssid is Some,
        d.online == (raws.len() > 0),
{
}

/// Two snapshots built from the same interface table and the same Wi-Fi tool
/// output agree on their interfaces, network name and signal strength,
/// whatever the reachability probe gave each time.
pub proof fn lemma_snapshot_repeatable(
    d1: NetworkDetails,
    d2: NetworkDetails,
    raws: Seq<RawInterface>,
    reachable1: bool,
    reachable2: bool,
    platform: WifiPlatform,
    stdout: Option<Seq<u8>>,
)
    requires
        d1.reports(raws, reachable1, wifi_report(platform, stdout)),
        d2.reports(raws, reachable2, wifi_report(platform, stdout)),
    ensures
        d1.interfaces_view() == d2.interfaces_view(),
        opt_view(d1.ssid) == opt_view(d2.ssid),
        d1.signal_strength == d2.signal_strength,
        d1.online == d2.online,
{
    assert forall|i: int| 0 <= i < d1.interfaces.len() implies d1.interfaces_view()[i]
        == d2.interfaces_view()[i] by {
        assert(d1.interfaces@[i].describes(raws[i]));
        assert(d2.interfaces@[i].describes(raws[i]));
    }
    assert(d1.interfaces_view() =~= d2.interfaces_view());
}

} // verus!
