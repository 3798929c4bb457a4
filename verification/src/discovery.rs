//! Discovery of the devices that answer: which of the configured devices a
//! round reports, how each is described, and what follows a report.

use vstd::prelude::*;

verus! {

/// The property under which a device's endpoint is reported.
pub const DEVICE_ENDPOINT: &'static str = "AKRI_HTTP_DEVICE_ENDPOINT";

/// The property under which a device's identity is reported.
pub const DEVICE_ID: &'static str = "DEVICE_ID";

/// Seconds between two rounds.
pub const ROUND_INTERVAL_SECS: u64 = 10;

/// A device as the configuration names it.
#[derive(Debug)]
pub struct HttpDevice {
    pub id: String,
    pub endpoint: String,
}

impl View for HttpDevice {
    type V = (Seq<char>, Seq<char>);

    /// The identity, then the endpoint.
    open spec fn view(&self) -> (Seq<char>, Seq<char>) {
        (self.id@, self.endpoint@)
    }
}

impl Clone for HttpDevice {
    fn clone(&self) -> (r: Self)
        ensures
            r@ == self@,
    {
        HttpDevice { id: self.id.clone(), endpoint: self.endpoint.clone() }
    }
}

/// What a request to a device's endpoint gave.
#[derive(Clone, Copy, Debug, PartialEq, Eq, Structural)]
pub enum Probe {
    /// No response.
    Unreachable,
    /// A response with this HTTP status.
    Answered { status: u16 },
}

impl Probe {
    /// Whether the device counts as present: it answered with a status from
    /// 200 to 299.
    pub open spec fn online(self) -> bool {
        match self {
            Probe::Unreachable => false,
            Probe::Answered { status } => 200 <= status < 300,
        }
    }

    /// Whether the device counts as present.
    pub fn is_online(self) -> (r: bool)
        ensures
            r == self.online(),
    {
        match self {
            Probe::Unreachable => false,
            Probe::Answered { status } => 200 <= status && status < 300,
        }
    }
}

/// A device as a round reports it.
#[derive(Debug)]
pub struct Device {
    pub id: String,
    /// Name and value of each property; no name stands twice.
    pub properties: Vec<(String, String)>,
}

/// A reported device, as values.
pub struct DeviceView {
    pub id: Seq<char>,
    pub properties: Seq<(Seq<char>, Seq<char>)>,
}

impl View for Device {
    type V = DeviceView;

    open spec fn view(&self) -> DeviceView {
        DeviceView {
            id: self.id@,
            properties: self.properties@.map_values(|p: (String, String)| (p.0@, p.1@)),
        }
    }
}

/// How the device `device` is reported: under its identity, with its
/// endpoint and its identity as properties.
pub open spec fn described(device: (Seq<char>, Seq<char>)) -> DeviceView {
    DeviceView {
        id: device.0,
        properties: seq![(DEVICE_ENDPOINT@, device.1), (DEVICE_ID@, device.0)],
    }
}

/// What a round reports after it has probed `probed`: the devices that were
/// present, in the order in which they were probed.
pub open spec fn reported(probed: Seq<((Seq<char>, Seq<char>), Probe)>) -> Seq<DeviceView>
    decreases probed.len(),
{
    if probed.len() == 0 {
        Seq::empty()
    } else if probed.last().1.online() {
        reported(probed.drop_last()).push(described(probed.last().0))
    } else {
        reported(probed.drop_last())
    }
}

/// The views of a list of devices.
pub open spec fn device_views(devices: Seq<Device>) -> Seq<DeviceView> {
    devices.map_values(|d: Device| d@)
}

/// Whether `from` says, for each report of a round in turn, which probe it
/// stands for: one that found its device present, and a later one than that
/// of the report before.
pub open spec fn accounts_for(
    from: Seq<int>,
    probed: Seq<((Seq<char>, Seq<char>), Probe)>,
) -> bool {
    &&& from.len() == reported(probed).len()
    &&& forall|k: int|
        0 <= k < from.len() ==> {
            &&& 0 <= #[trigger] from[k] < probed.len()
            &&& probed[from[k]].1.online()
            &&& reported(probed)[k] == described(probed[from[k]].0)
        }
    &&& forall|j: int, k: int| 0 <= j < k < from.len() ==> from[j] < from[k]
}

/// A round reports every device that was present and no other, none twice
/// over and none out of turn.
pub proof fn lemma_reported_are_the_online_in_order(probed: Seq<((Seq<char>, Seq<char>), Probe)>)
    ensures
        exists|from: Seq<int>| accounts_for(from, probed),
        forall|i: int|
            0 <= i < probed.len() && (#[trigger] probed[i]).1.online() ==> reported(
                probed,
            ).contains(described(probed[i].0)),
    decreases probed.len(),
{
    if probed.len() == 0 {
        assert(accounts_for(Seq::<int>::empty(), probed));
    } else {
        let front = probed.drop_last();
        lemma_reported_are_the_online_in_order(front);
        let from_front = choose|from: Seq<int>| accounts_for(from, front);
        let from = if probed.last().1.online() {
            from_front.push(probed.len() - 1)
        } else {
            from_front
        };
        assert forall|k: int| 0 <= k < from.len() implies {
            &&& 0 <= #[trigger] from[k] < probed.len()
            &&& probed[from[k]].1.online()
            &&& reported(probed)[k] == described(probed[from[k]].0)
        } by {
            if k < from_front.len() {
                assert(front[from_front[k]] == probed[from_front[k]]);
            }
        }
        assert forall|j: int, k: int| 0 <= j < k < from.len() implies from[j] < from[k] by {
            if k < from_front.len() {
                assert(from_front[j] < from_front[k]);
            } else {
                assert(0 <= from_front[j] < front.len());
            }
        }
        assert(accounts_for(from, probed));
        assert forall|i: int|
            0 <= i < probed.len() && (#[trigger] probed[i]).1.online() implies reported(
            probed,
        ).contains(described(probed[i].0)) by {
            if i < front.len() {
                assert(front[i] == probed[i]);
                let k = choose|k: int|
                    0 <= k < reported(front).len() && reported(front)[k] == described(front[i].0);
                assert(reported(probed)[k] == described(probed[i].0));
            } else {
                assert(reported(probed)[reported(probed).len() - 1] == described(probed[i].0));
            }
        }
    }
}

/// One more probe adds its device to the report of a round where it found
/// the device present, and leaves the report as it is where it did not. So a
/// round that records its probes one by one holds what `reported` says of
/// them all.
pub proof fn lemma_reported_grows_by_probe(
    probed: Seq<((Seq<char>, Seq<char>), Probe)>,
    device: (Seq<char>, Seq<char>),
    probe: Probe,
)
    ensures
        reported(probed.push((device, probe))) == if probe.online() {
            reported(probed).push(described(device))
        } else {
            reported(probed)
        },
{
    let all = probed.push((device, probe));
    assert(all.drop_last() =~= probed);
    assert(all.last() == (device, probe));
}

/// The devices that one round has found present so far.
#[derive(Debug)]
pub struct Round {
    found: Vec<Device>,
}

impl View for Round {
    type V = Seq<DeviceView>;

    closed spec fn view(&self) -> Seq<DeviceView> {
        device_views(self.found@)
    }
}

impl Device {
    /// The report on `device`.
    pub fn describe(device: &HttpDevice) -> (r: Device)
        ensures
            r@ == described(device@),
    {
        let mut properties: Vec<(String, String)> = Vec::new();
        properties.push((DEVICE_ENDPOINT.to_owned(), device.endpoint.clone()));
        properties.push((DEVICE_ID.to_owned(), device.id.clone()));
        let r = Device { id: device.id.clone(), properties };
        proof {
            assert(r@.properties =~= described(device@).properties);
        }
        r
    }
}

impl Round {
    /// A round that has probed nothing yet.
    pub fn new() -> (r: Round)
        ensures
            r@ == reported(Seq::empty()),
            r@.len() == 0,
    {
        let r = Round { found: Vec::new() };
        proof {
            assert(r@ =~= Seq::empty());
        }
        r
    }

    /// Takes note of what probing `device` gave: a device that is present is
    /// added to the report, any other is passed over.
    pub fn record(&mut self, device: &HttpDevice, probe: Probe)
        ensures
            final(self)@ == if probe.online() {
                old(self)@.push(described(device@))
            } else {
                old(self)@
            },
    {
        if probe.is_online() {
            let report = Device::describe(device);
            self.found.push(report);
            proof {
                assert(device_views(self.found@) =~= device_views(old(self).found@).push(
                    described(device@),
                ));
            }
        }
    }

    /// The report of the round: the devices found present, in the order in
    /// which they were probed.
    pub fn into_devices(self) -> (r: Vec<Device>)
        ensures
            device_views(r@) == self@,
    {
        self.found
    }
}

/// What a round does once its report was handed over.
#[derive(Clone, Copy, Debug, PartialEq, Eq, Structural)]
pub enum NextStep {
    /// Wait this many seconds, then probe again.
    Wait { secs: u64 },
    /// The receiver is gone: ask to be registered again, and stop.
    Reregister,
}

/// What follows a report: the next round after the interval where the report
/// was taken, and registration anew where it could not be delivered.
pub fn after_report(delivered: bool) -> (r: NextStep)
    ensures
        r == if delivered {
            NextStep::Wait { secs: ROUND_INTERVAL_SECS }
        } else {
            NextStep::Reregister
        },
{
    if delivered {
        NextStep::Wait { secs: ROUND_INTERVAL_SECS }
    } else {
        NextStep::Reregister
    }
}

} // verus!
