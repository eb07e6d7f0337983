//! The iOS device enumerator: flattening of the simulator controller's
//! structured device listing, grouped by runtime, into one device list,
//! and the boot-outcome decision for launching a simulator.

use vstd::prelude::*;

use crate::emulators::{DeviceState, IOSSimulator};
use crate::json::{json_array, json_as_str, json_from_str, json_get, json_object_entries};
use crate::text::{contains_seq, contains_str, starts_with_seq, str_eq};

verus! {

broadcast use vstd::seq_lib::group_seq_lib_default, vstd::seq::group_seq_axioms;

/// One device of the structured listing, fields as the document carried
/// them (absent when the document lacked or mistyped them).
pub struct RawSimDevice {
    pub name: Option<String>,
    pub udid: Option<String>,
    pub state: Option<String>,
}

/// One runtime group of the structured listing.
pub struct RawSimGroup {
    pub runtime: String,
    pub devices: Vec<RawSimDevice>,
}

/// The device state a reported state label denotes; any other label marks
/// the device to be excluded.
pub open spec fn state_of_label(s: Seq<char>) -> Option<DeviceState> {
    if s == "Booted"@ {
        Some(DeviceState::Booted)
    } else if s == "Shutdown"@ {
        Some(DeviceState::Shutdown)
    } else if s == "Available"@ {
        Some(DeviceState::Available)
    } else {
        None
    }
}

pub fn state_of_label_exec(s: &str) -> (r: Option<DeviceState>)
    ensures
        r == state_of_label(s@),
{
    if str_eq(s, "Booted") {
        Some(DeviceState::Booted)
    } else if str_eq(s, "Shutdown") {
        Some(DeviceState::Shutdown)
    } else if str_eq(s, "Available") {
        Some(DeviceState::Available)
    } else {
        None
    }
}

/// Whether a raw device is kept: all three fields present and the state
/// label one of the recognized ones.
pub open spec fn raw_kept(d: RawSimDevice) -> bool {
    d.name is Some && d.udid is Some && d.state is Some && state_of_label(d.state.unwrap()@)
        is Some
}

/// The simulator a kept raw device denotes, under its group's runtime.
pub open spec fn sim_of_raw(runtime: String, d: RawSimDevice) -> IOSSimulator {
    IOSSimulator {
        name: d.name.unwrap(),
        udid: d.udid.unwrap(),
        state: state_of_label(d.state.unwrap()@).unwrap(),
        runtime,
    }
}

/// The kept devices of one runtime group, in order.
pub open spec fn group_sims(runtime: String, devs: Seq<RawSimDevice>) -> Seq<IOSSimulator>
    decreases devs.len(),
{
    if devs.len() == 0 {
        seq![]
    } else if raw_kept(devs[0]) {
        seq![sim_of_raw(runtime, devs[0])] + group_sims(runtime, devs.drop_first())
    } else {
        group_sims(runtime, devs.drop_first())
    }
}

/// The flattening of all groups: each group's kept devices in the group's
/// order, groups in their given order.
pub open spec fn sims_from_raw_spec(groups: Seq<RawSimGroup>) -> Seq<IOSSimulator>
    decreases groups.len(),
{
    if groups.len() == 0 {
        seq![]
    } else {
        group_sims(groups[0].runtime, groups[0].devices@) + sims_from_raw_spec(
            groups.drop_first(),
        )
    }
}

/// Flatten the structured listing's runtime groups into one device list:
/// a device is kept exactly when its name, identifier and a recognized
/// state are all present, and order follows the groups and their devices.
pub fn sims_from_raw(groups: &Vec<RawSimGroup>) -> (r: Vec<IOSSimulator>)
    ensures
        r@ == sims_from_raw_spec(groups@),
{
    let n = groups.len();
    let mut r: Vec<IOSSimulator> = Vec::new();
    let mut i: usize = 0;
    proof {
        assert(groups@.subrange(0, n as int) =~= groups@);
        assert(r@ + sims_from_raw_spec(groups@) =~= sims_from_raw_spec(groups@));
    }
    while i < n
        invariant
            n == groups@.len(),
            0 <= i <= n,
            sims_from_raw_spec(groups@) == r@ + sims_from_raw_spec(
                groups@.subrange(i as int, n as int),
            ),
        decreases n - i,
    {
        let ghost t = groups@.subrange(i as int, n as int);
        let ghost rt = groups@[i as int].runtime;
        let ghost devs = groups@[i as int].devices@;
        proof {
            assert(t[0] == groups@[i as int]);
            assert(t.drop_first() =~= groups@.subrange(i as int + 1, n as int));
        }
        let g = &groups[i];
        let m = g.devices.len();
        let mut j: usize = 0;
        let ghost base = r@;
        proof {
            assert(devs.subrange(0, m as int) =~= devs);
        }
        while j < m
            invariant
                n == groups@.len(),
                0 <= i < n,
                rt == groups@[i as int].runtime,
                devs == groups@[i as int].devices@,
                g == &groups[i as int],
                m == devs.len(),
                0 <= j <= m,
                base + group_sims(rt, devs) == r@ + group_sims(
                    rt,
                    devs.subrange(j as int, m as int),
                ),
            decreases m - j,
        {
            let ghost dt = devs.subrange(j as int, m as int);
            proof {
                assert(dt[0] == devs[j as int]);
                assert(dt.drop_first() =~= devs.subrange(j as int + 1, m as int));
            }
            let ghost before = r@;
            let d = &g.devices[j];
            let kept = match (&d.name, &d.udid, &d.state) {
                (Some(_), Some(_), Some(st)) => state_of_label_exec(st.as_str()),
                _ => None,
            };
            if let Some(state) = kept {
                let name = match &d.name {
                    Some(x) => x.clone(),
                    None => String::new(),
                };
                let udid = match &d.udid {
                    Some(x) => x.clone(),
                    None => String::new(),
                };
                let sim = IOSSimulator { name, udid, state, runtime: g.runtime.clone() };
                proof {
                    assert(raw_kept(dt[0]));
                    assert(sim == sim_of_raw(rt, dt[0]));
                }
                r.push(sim);
                proof {
                    assert(before + group_sims(rt, dt) =~= r@ + group_sims(rt, dt.drop_first()));
                }
            } else {
                proof {
                    assert(!raw_kept(dt[0]));
                    assert(before + group_sims(rt, dt) =~= r@ + group_sims(rt, dt.drop_first()));
                }
            }
            j = j + 1;
        }
        proof {
            assert(devs.subrange(m as int, m as int) =~= Seq::<RawSimDevice>::empty());
            assert(group_sims(rt, devs.subrange(m as int, m as int)) =~= Seq::<
                IOSSimulator,
            >::empty());
            assert(r@ =~= base + group_sims(rt, devs));
            assert(sims_from_raw_spec(t) == group_sims(rt, devs) + sims_from_raw_spec(
                t.drop_first(),
            ));
            assert(base + sims_from_raw_spec(t) =~= r@ + sims_from_raw_spec(
                groups@.subrange(i as int + 1, n as int),
            ));
        }
        i = i + 1;
    }
    proof {
        assert(groups@.subrange(n as int, n as int) =~= Seq::<RawSimGroup>::empty());
        assert(r@ + sims_from_raw_spec(groups@.subrange(n as int, n as int)) =~= r@);
    }
    r
}


/// The string at `key` of a JSON object value, when present and a string.
fn json_get_str(v: &serde_json::Value, key: &str) -> Option<String> {
    match json_get(v, key) {
        Some(x) => json_as_str(x),
        None => None,
    }
}

/// List the simulator devices the controller's structured output
/// describes: the groups under the devices field are flattened as
/// `sims_from_raw` states, keeping each group's order; a document that
/// cannot be parsed, or one without a devices field, is the error.
///
/// The document is read through the trusted JSON declarations, whose
/// results are opaque here, so the contract does not fix which groups a
/// given document yields; every decision over the extracted fields is
/// made by `sims_from_raw`, whose contract pins the result for every
/// extracted value. What holds of every outcome is stated: a success is
/// some flattening that `sims_from_raw_spec` describes, and a failure is
/// always the descriptive parse error.
pub fn list_ios_simulators(json: &str) -> (r: Result<Vec<IOSSimulator>, String>)
    ensures
        r matches Err(m) ==> starts_with_seq(m@, "Failed to parse simctl JSON"@),
        r matches Ok(sims) ==> exists|groups: Seq<RawSimGroup>| sims@ == sims_from_raw_spec(
            groups,
        ),
{
    let v = match json_from_str(json) {
        Ok(v) => v,
        Err(e) => {
            let mut m = String::new();
            m.append("Failed to parse simctl JSON");
            m.append(": ");
            m.append(e.as_str());
            proof {
                assert(m@.subrange(0, "Failed to parse simctl JSON"@.len() as int)
                    =~= "Failed to parse simctl JSON"@);
            }
            return Err(m);
        },
    };
    let devices = match json_get(&v, "devices") {
        Some(d) => d,
        None => {
            let mut m = String::new();
            m.append("Failed to parse simctl JSON");
            m.append(": missing field `devices`");
            proof {
                assert(m@.subrange(0, "Failed to parse simctl JSON"@.len() as int)
                    =~= "Failed to parse simctl JSON"@);
            }
            return Err(m);
        },
    };
    let mut groups: Vec<RawSimGroup> = Vec::new();
    if let Some(entries) = json_object_entries(devices) {
        let n = entries.len();
        let mut i: usize = 0;
        while i < n
            invariant
                n == entries@.len(),
                0 <= i <= n,
            decreases n - i,
        {
            let runtime = entries[i].0.clone();
            if let Some(arr) = json_array(&entries[i].1) {
                let m = arr.len();
                let mut devs: Vec<RawSimDevice> = Vec::new();
                let mut j: usize = 0;
                while j < m
                    invariant
                        m == arr@.len(),
                        0 <= j <= m,
                    decreases m - j,
                {
                    let d = &arr[j];
                    devs.push(
                        RawSimDevice {
                            name: json_get_str(d, "name"),
                            udid: json_get_str(d, "udid"),
                            state: json_get_str(d, "state"),
                        },
                    );
                    j = j + 1;
                }
                groups.push(RawSimGroup { runtime, devices: devs });
            }
            i = i + 1;
        }
    }
    let sims = sims_from_raw(&groups);
    proof {
        assert(sims@ == sims_from_raw_spec(groups@));
    }
    Ok(sims)
}

/// The launch outcome for a simulator, from the boot command's exit
/// status and error text: an already-booted device counts as success, and
/// any other failure carries the boot error text.
pub fn open_ios_simulator(udid: &str, boot_status_ok: bool, boot_stderr: &str) -> (r: Result<
    String,
    String,
>)
    ensures
        (boot_status_ok || contains_seq(
            boot_stderr@,
            "Unable to boot device in current state: Booted"@,
        )) ==> (r matches Ok(m) && m@ == "Opening iOS simulator: "@ + udid@),
        !(boot_status_ok || contains_seq(
            boot_stderr@,
            "Unable to boot device in current state: Booted"@,
        )) ==> (r matches Err(m) && m@ == "Failed to boot simulator: "@ + boot_stderr@),
{
    if boot_status_ok || contains_str(boot_stderr, "Unable to boot device in current state: Booted") {
        let mut m = String::new();
        m.append("Opening iOS simulator: ");
        m.append(udid);
        proof {
            assert(m@ =~= "Opening iOS simulator: "@ + udid@);
        }
        Ok(m)
    } else {
        let mut m = String::new();
        m.append("Failed to boot simulator: ");
        m.append(boot_stderr);
        proof {
            assert(m@ =~= "Failed to boot simulator: "@ + boot_stderr@);
        }
        Err(m)
    }
}

} // verus!
