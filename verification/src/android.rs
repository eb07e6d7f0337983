//! The Android device enumerator: parsers for the emulator tool's image
//! list, the image descriptor file, the bridge tool's device tables, and
//! the assembly of the tiers' results into one booted-first device list.

use vstd::prelude::*;

use crate::emulators::{
    booted_first, distinct_ids, id_seq, sort_booted_first, AndroidDeviceKind, AndroidEmulator,
    DeviceState,
};
use crate::text::{
    contains_seq, contains_str, ends_with_seq, ends_with_str, lines_spec, seq_contains_str,
    split_lines, split_whitespace_str, split_ws_spec, starts_with_seq, starts_with_str, str_eq,
    strip_prefix_str, trim_spec, trim_str, vec_contains_str,
};

verus! {

broadcast use vstd::seq_lib::group_seq_lib_default, vstd::seq::group_seq_axioms;

/// The image identifiers in the emulator tool's list output: each non-empty
/// line, trimmed.
pub open spec fn avd_ids_spec(lines: Seq<Seq<char>>) -> Seq<Seq<char>>
    decreases lines.len(),
{
    if lines.len() == 0 {
        seq![]
    } else if lines[0].len() != 0 {
        seq![trim_spec(lines[0])] + avd_ids_spec(lines.drop_first())
    } else {
        avd_ids_spec(lines.drop_first())
    }
}

/// Parse the emulator tool's image list output: one identifier per
/// non-empty line.
pub fn parse_avd_list(out: &str) -> (r: Vec<String>)
    ensures
        r.deep_view() == avd_ids_spec(lines_spec(out@)),
{
    let lines = split_lines(out);
    let ghost all = lines.deep_view();
    let n = lines.len();
    let mut r: Vec<String> = Vec::new();
    let mut i: usize = 0;
    proof {
        assert(all.subrange(0, n as int) =~= all);
        assert(r.deep_view() =~= Seq::<Seq<char>>::empty());
    }
    while i < n
        invariant
            all == lines.deep_view(),
            n == lines@.len(),
            0 <= i <= n,
            avd_ids_spec(all) == r.deep_view() + avd_ids_spec(all.subrange(i as int, n as int)),
        decreases n - i,
    {
        let ghost t = all.subrange(i as int, n as int);
        proof {
            assert(t[0] == all[i as int]);
            assert(all[i as int] == lines@[i as int]@);
            assert(t.drop_first() =~= all.subrange(i as int + 1, n as int));
        }
        let ghost old_r = r.deep_view();
        if lines[i].unicode_len() != 0 {
            let id = trim_str(lines[i].as_str()).to_owned();
            r.push(id);
            proof {
                assert(r.deep_view() =~= old_r.push(trim_spec(all[i as int])));
                assert(old_r + avd_ids_spec(t) =~= r.deep_view() + avd_ids_spec(t.drop_first()));
            }
        } else {
            proof {
                assert(old_r + avd_ids_spec(t) =~= r.deep_view() + avd_ids_spec(t.drop_first()));
            }
        }
        i = i + 1;
    }
    proof {
        assert(all.subrange(n as int, n as int) =~= Seq::<Seq<char>>::empty());
        assert(r.deep_view() + avd_ids_spec(all.subrange(n as int, n as int)) =~= r.deep_view());
    }
    r
}

/// The display name recorded in an image descriptor file: the remainder of
/// the first line that begins with the display-name key, trimmed.
pub open spec fn display_name_spec(lines: Seq<Seq<char>>) -> Option<Seq<char>>
    decreases lines.len(),
{
    if lines.len() == 0 {
        None
    } else if starts_with_seq(lines[0], "avd.ini.displayname="@) {
        Some(
            trim_spec(
                lines[0].subrange("avd.ini.displayname="@.len() as int, lines[0].len() as int),
            ),
        )
    } else {
        display_name_spec(lines.drop_first())
    }
}

/// Read the display name out of an image descriptor file's contents.
pub fn parse_avd_display_name(contents: &str) -> (r: Option<String>)
    ensures
        match r {
            Some(n) => display_name_spec(lines_spec(contents@)) == Some(n@),
            None => display_name_spec(lines_spec(contents@)) is None,
        },
{
    let lines = split_lines(contents);
    let ghost all = lines.deep_view();
    let n = lines.len();
    let mut i: usize = 0;
    proof {
        assert(all.subrange(0, n as int) =~= all);
    }
    while i < n
        invariant
            all == lines.deep_view(),
            all == lines_spec(contents@),
            n == lines@.len(),
            0 <= i <= n,
            display_name_spec(all) == display_name_spec(all.subrange(i as int, n as int)),
        decreases n - i,
    {
        let ghost t = all.subrange(i as int, n as int);
        proof {
            assert(t[0] == all[i as int]);
            assert(all[i as int] == lines@[i as int]@);
            assert(t.drop_first() =~= all.subrange(i as int + 1, n as int));
        }
        if let Some(rest) = strip_prefix_str(lines[i].as_str(), "avd.ini.displayname=") {
            let name = trim_str(rest).to_owned();
            proof {
                assert(starts_with_seq(t[0], "avd.ini.displayname="@));
                assert(rest@ == t[0].subrange("avd.ini.displayname="@.len() as int, t[0].len() as int));
                assert(display_name_spec(t) == Some(name@));
                assert(all == lines_spec(contents@));
                assert(display_name_spec(lines_spec(contents@)) == Some(name@));
            }
            return Some(name);
        }
        i = i + 1;
    }
    proof {
        assert(all.subrange(n as int, n as int) =~= Seq::<Seq<char>>::empty());
    }
    None
}

/// All lines but the first, as an `Iterator::skip(1)` over lines yields
/// them.
pub open spec fn skip_first(lines: Seq<Seq<char>>) -> Seq<Seq<char>> {
    if lines.len() == 0 {
        lines
    } else {
        lines.drop_first()
    }
}

/// The serial a bridge-tool device table line reports, when the line lists
/// a connected device whose serial follows the emulator naming convention.
pub open spec fn serial_of_line(l: Seq<char>) -> Option<Seq<char>> {
    let parts = split_ws_spec(l);
    if parts.len() >= 2 && parts[1] == "device"@ && starts_with_seq(parts[0], "emulator-"@) {
        Some(parts[0])
    } else {
        None
    }
}

pub open spec fn serials_spec(lines: Seq<Seq<char>>) -> Seq<Seq<char>>
    decreases lines.len(),
{
    if lines.len() == 0 {
        seq![]
    } else {
        match serial_of_line(lines[0]) {
            Some(s) => seq![s] + serials_spec(lines.drop_first()),
            None => serials_spec(lines.drop_first()),
        }
    }
}

/// Parse the bridge tool's device table: skip the heading line, and keep
/// the serial of every line whose second column marks a ready device and
/// whose serial uses the emulator naming convention.
pub fn parse_adb_serials(out: &str) -> (r: Vec<String>)
    ensures
        r.deep_view() == serials_spec(skip_first(lines_spec(out@))),
{
    let lines = split_lines(out);
    let ghost all = lines.deep_view();
    let n = lines.len();
    let mut r: Vec<String> = Vec::new();
    let mut i: usize = 1;
    proof {
        if n > 0 {
            assert(all.subrange(1, n as int) =~= skip_first(all));
        }
        assert(r.deep_view() =~= Seq::<Seq<char>>::empty());
    }
    if n == 0 {
        return r;
    }
    while i < n
        invariant
            all == lines.deep_view(),
            n == lines@.len(),
            1 <= i <= n,
            serials_spec(skip_first(all)) == r.deep_view() + serials_spec(
                all.subrange(i as int, n as int),
            ),
        decreases n - i,
    {
        let ghost t = all.subrange(i as int, n as int);
        proof {
            assert(t[0] == all[i as int]);
            assert(all[i as int] == lines@[i as int]@);
            assert(t.drop_first() =~= all.subrange(i as int + 1, n as int));
        }
        let parts = split_whitespace_str(lines[i].as_str());
        let ghost pv = parts.deep_view();
        let ghost old_r = r.deep_view();
        if parts.len() >= 2 && str_eq(parts[1].as_str(), "device") && starts_with_str(
            parts[0].as_str(),
            "emulator-",
        ) {
            proof {
                assert(pv[0] == parts@[0]@ && pv[1] == parts@[1]@);
                assert(serial_of_line(t[0]) == Some(parts@[0]@));
            }
            r.push(parts[0].clone());
            proof {
                assert(r.deep_view() =~= old_r.push(parts@[0]@));
                assert(old_r + serials_spec(t) =~= r.deep_view() + serials_spec(t.drop_first()));
            }
        } else {
            proof {
                if pv.len() >= 2 {
                    assert(pv[0] == parts@[0]@ && pv[1] == parts@[1]@);
                }
                assert(serial_of_line(t[0]) is None);
                assert(old_r + serials_spec(t) =~= r.deep_view() + serials_spec(t.drop_first()));
            }
        }
        i = i + 1;
    }
    proof {
        assert(all.subrange(n as int, n as int) =~= Seq::<Seq<char>>::empty());
        assert(r.deep_view() + serials_spec(all.subrange(n as int, n as int)) =~= r.deep_view());
    }
    r
}

/// Parse one running image's name query output: the first line, trimmed.
pub fn parse_avd_name_output(out: &str) -> (r: Option<String>)
    ensures
        match r {
            Some(n) => lines_spec(out@).len() > 0 && n@ == trim_spec(lines_spec(out@)[0]),
            None => lines_spec(out@).len() == 0,
        },
{
    let lines = split_lines(out);
    if lines.len() == 0 {
        return None;
    }
    proof {
        assert(lines.deep_view()[0] == lines@[0]@);
    }
    Some(trim_str(lines[0].as_str()).to_owned())
}


/// The running-device serials a bridge query yields: a query that ran but
/// failed means no running devices for this tier, not an error.
pub fn running_device_serials(status_ok: bool, out: &str) -> (r: Vec<String>)
    ensures
        status_ok ==> r.deep_view() == serials_spec(skip_first(lines_spec(out@))),
        !status_ok ==> r.deep_view() == Seq::<Seq<char>>::empty(),
{
    if status_ok {
        parse_adb_serials(out)
    } else {
        let r: Vec<String> = Vec::new();
        proof {
            assert(r.deep_view() =~= Seq::<Seq<char>>::empty());
        }
        r
    }
}

/// The first whitespace token that carries the model key, without the key.
pub open spec fn model_of_parts(parts: Seq<Seq<char>>) -> Option<Seq<char>>
    decreases parts.len(),
{
    if parts.len() == 0 {
        None
    } else if starts_with_seq(parts[0], "model:"@) {
        Some(parts[0].subrange("model:"@.len() as int, parts[0].len() as int))
    } else {
        model_of_parts(parts.drop_first())
    }
}

/// The identifier and display name a detailed bridge-tool device line
/// yields: the first token is the identifier, the model token (if any)
/// the name, the identifier otherwise.
pub open spec fn adb_l_entry(l: Seq<char>) -> Option<(Seq<char>, Seq<char>)> {
    if l.len() == 0 || !contains_seq(l, "device"@) {
        None
    } else {
        let parts = split_ws_spec(l);
        if parts.len() == 0 {
            None
        } else {
            match model_of_parts(parts) {
                Some(m) => Some((parts[0], m)),
                None => Some((parts[0], parts[0])),
            }
        }
    }
}

pub open spec fn adb_l_entries(lines: Seq<Seq<char>>) -> Seq<(Seq<char>, Seq<char>)>
    decreases lines.len(),
{
    if lines.len() == 0 {
        seq![]
    } else {
        match adb_l_entry(lines[0]) {
            Some(e) => seq![e] + adb_l_entries(lines.drop_first()),
            None => adb_l_entries(lines.drop_first()),
        }
    }
}

/// Parse the bridge tool's detailed device table into running devices:
/// skip the heading line; every remaining non-empty line that mentions a
/// device becomes one running, booted entry.
pub fn parse_adb_devices_l(out: &str) -> (r: Vec<AndroidEmulator>)
    ensures
        r@.len() == adb_l_entries(skip_first(lines_spec(out@))).len(),
        forall|i: int|
            0 <= i < r@.len() ==> {
                let e = adb_l_entries(skip_first(lines_spec(out@)))[i];
                &&& (#[trigger] r@[i]).id@ == e.0
                &&& r@[i].name@ == e.1
                &&& r@[i].device_type == AndroidDeviceKind::RunningDevice
                &&& r@[i].state == DeviceState::Booted
            },
{
    let lines = split_lines(out);
    let ghost all = lines.deep_view();
    let n = lines.len();
    let mut r: Vec<AndroidEmulator> = Vec::new();
    let ghost full = adb_l_entries(skip_first(all));
    let mut i: usize = 1;
    proof {
        if n > 0 {
            assert(all.subrange(1, n as int) =~= skip_first(all));
        }
    }
    if n == 0 {
        return r;
    }
    while i < n
        invariant
            all == lines.deep_view(),
            n == lines@.len(),
            1 <= i <= n,
            full == adb_l_entries(skip_first(all)),
            full == r@.map_values(|d: AndroidEmulator| (d.id@, d.name@)) + adb_l_entries(
                all.subrange(i as int, n as int),
            ),
            forall|k: int|
                0 <= k < r@.len() ==> (#[trigger] r@[k]).device_type
                    == AndroidDeviceKind::RunningDevice && r@[k].state == DeviceState::Booted,
        decreases n - i,
    {
        let ghost t = all.subrange(i as int, n as int);
        proof {
            assert(t[0] == all[i as int]);
            assert(all[i as int] == lines@[i as int]@);
            assert(t.drop_first() =~= all.subrange(i as int + 1, n as int));
        }
        let ghost old_pairs = r@.map_values(|d: AndroidEmulator| (d.id@, d.name@));
        let line = lines[i].as_str();
        if line.unicode_len() > 0 && contains_str(line, "device") {
            let parts = split_whitespace_str(line);
            let ghost pv = parts.deep_view();
            if parts.len() > 0 {
                proof {
                    assert(pv[0] == parts@[0]@);
                }
                let id = parts[0].clone();
                let mut name: Option<String> = None;
                let m = parts.len();
                let mut j: usize = 0;
                proof {
                    assert(pv.subrange(0, m as int) =~= pv);
                }
                while j < m
                    invariant
                        pv == parts.deep_view(),
                        m == parts@.len(),
                        0 <= j <= m,
                        m > 0,
                        name is None ==> model_of_parts(pv) == model_of_parts(
                            pv.subrange(j as int, m as int),
                        ),
                        name matches Some(s) ==> model_of_parts(pv) == Some(s@),
                    decreases m - j,
                {
                    if name.is_none() {
                        let ghost pt = pv.subrange(j as int, m as int);
                        proof {
                            assert(pt[0] == pv[j as int]);
                            assert(pv[j as int] == parts@[j as int]@);
                            assert(pt.drop_first() =~= pv.subrange(j as int + 1, m as int));
                        }
                        if let Some(rest) = strip_prefix_str(parts[j].as_str(), "model:") {
                            proof {
                                assert(starts_with_seq(pt[0], "model:"@));
                                assert(model_of_parts(pt) == Some(rest@));
                            }
                            name = Some(rest.to_owned());
                        }
                    }
                    j = j + 1;
                }
                let dev_name = match name {
                    Some(s) => s,
                    None => {
                        proof {
                            assert(pv.subrange(m as int, m as int) =~= Seq::<Seq<char>>::empty());
                        }
                        id.clone()
                    },
                };
                proof {
                    assert(contains_seq(t[0], "device"@) && t[0].len() > 0);
                    assert(adb_l_entry(t[0]) == Some((id@, dev_name@)));
                }
                r.push(
                    AndroidEmulator {
                        name: dev_name,
                        id,
                        device_type: AndroidDeviceKind::RunningDevice,
                        state: DeviceState::Booted,
                    },
                );
                proof {
                    assert(r@.map_values(|d: AndroidEmulator| (d.id@, d.name@)) =~= old_pairs.push(
                        adb_l_entry(t[0]).unwrap(),
                    ));
                    assert(old_pairs + adb_l_entries(t) =~= r@.map_values(
                        |d: AndroidEmulator| (d.id@, d.name@),
                    ) + adb_l_entries(t.drop_first()));
                }
            } else {
                proof {
                    assert(adb_l_entry(t[0]) is None);
                    assert(old_pairs + adb_l_entries(t) =~= old_pairs + adb_l_entries(
                        t.drop_first(),
                    ));
                }
            }
        } else {
            proof {
                if t[0].len() > 0 {
                    assert(!contains_seq(t[0], "device"@));
                }
                assert(adb_l_entry(t[0]) is None);
                assert(old_pairs + adb_l_entries(t) =~= old_pairs + adb_l_entries(
                    t.drop_first(),
                ));
            }
        }
        i = i + 1;
    }
    proof {
        assert(all.subrange(n as int, n as int) =~= Seq::<Seq<char>>::empty());
        let pairs = r@.map_values(|d: AndroidEmulator| (d.id@, d.name@));
        assert(pairs + adb_l_entries(all.subrange(n as int, n as int)) =~= pairs);
        assert(full == pairs);
        assert forall|i2: int| 0 <= i2 < r@.len() implies ((#[trigger] r@[i2]).id@ == full[i2].0
            && r@[i2].name@ == full[i2].1) by {
            assert(pairs[i2] == (r@[i2].id@, r@[i2].name@));
        }
    }
    r
}

/// Build image-backed devices from the listed identifiers: each takes its
/// descriptor display name when one was read, its identifier otherwise,
/// and is booted exactly when its identifier is among the running names.
/// Distinct identifiers in give distinct identifiers out.
pub fn make_android_emulators(
    ids: Vec<String>,
    names: Vec<Option<String>>,
    running: &Vec<String>,
) -> (r: Vec<AndroidEmulator>)
    requires
        ids@.len() == names@.len(),
    ensures
        ids.deep_view().no_duplicates() ==> distinct_ids(r@),
        r@.len() == ids@.len(),
        forall|i: int|
            0 <= i < r@.len() ==> {
                &&& (#[trigger] r@[i]).id == ids@[i]
                &&& r@[i].name == (match names@[i] {
                    Some(n) => n,
                    None => ids@[i],
                })
                &&& r@[i].device_type == AndroidDeviceKind::Image
                &&& r@[i].state == (if seq_contains_str(running.deep_view(), ids@[i]@) {
                    DeviceState::Booted
                } else {
                    DeviceState::Shutdown
                })
            },
{
    let n = ids.len();
    let mut r: Vec<AndroidEmulator> = Vec::new();
    let mut i: usize = 0;
    while i < n
        invariant
            n == ids@.len(),
            n == names@.len(),
            0 <= i <= n,
            r@.len() == i,
            forall|k: int|
                0 <= k < i ==> {
                    &&& (#[trigger] r@[k]).id == ids@[k]
                    &&& r@[k].name == (match names@[k] {
                        Some(n2) => n2,
                        None => ids@[k],
                    })
                    &&& r@[k].device_type == AndroidDeviceKind::Image
                    &&& r@[k].state == (if seq_contains_str(running.deep_view(), ids@[k]@) {
                        DeviceState::Booted
                    } else {
                        DeviceState::Shutdown
                    })
                },
        decreases n - i,
    {
        let name = match &names[i] {
            Some(s) => s.clone(),
            None => ids[i].clone(),
        };
        let state = if vec_contains_str(running, ids[i].as_str()) {
            DeviceState::Booted
        } else {
            DeviceState::Shutdown
        };
        r.push(
            AndroidEmulator {
                name,
                id: ids[i].clone(),
                device_type: AndroidDeviceKind::Image,
                state,
            },
        );
        i = i + 1;
    }
    proof {
        assert(id_seq(r@) =~= ids.deep_view());
    }
    r
}

/// A descriptor file name yields an image stem when it carries the
/// descriptor extension and a directory for that stem exists beside it.
pub open spec fn stem_ok(f: Seq<char>, dirs: Seq<Seq<char>>) -> bool {
    &&& ends_with_seq(f, ".ini"@)
    &&& f.len() > ".ini"@.len()
    &&& seq_contains_str(dirs, f.subrange(0, f.len() - ".ini"@.len()) + ".avd"@)
}

pub open spec fn stem_of(f: Seq<char>) -> Seq<char> {
    f.subrange(0, f.len() - ".ini"@.len())
}

pub open spec fn stems_spec(files: Seq<Seq<char>>, dirs: Seq<Seq<char>>) -> Seq<Seq<char>>
    decreases files.len(),
{
    if files.len() == 0 {
        seq![]
    } else if stem_ok(files[0], dirs) {
        seq![stem_of(files[0])] + stems_spec(files.drop_first(), dirs)
    } else {
        stems_spec(files.drop_first(), dirs)
    }
}

/// Scan a directory listing of the image store: every descriptor file
/// whose stem has a matching image directory yields that stem, in listing
/// order.
pub fn avd_stems_from_listing(file_names: &Vec<String>, dir_names: &Vec<String>) -> (r: Vec<
    String,
>)
    ensures
        r.deep_view() == stems_spec(file_names.deep_view(), dir_names.deep_view()),
{
    let ghost files = file_names.deep_view();
    let ghost dirs = dir_names.deep_view();
    let n = file_names.len();
    let mut r: Vec<String> = Vec::new();
    let mut i: usize = 0;
    proof {
        assert(files.subrange(0, n as int) =~= files);
        assert(r.deep_view() =~= Seq::<Seq<char>>::empty());
    }
    while i < n
        invariant
            files == file_names.deep_view(),
            dirs == dir_names.deep_view(),
            n == file_names@.len(),
            0 <= i <= n,
            stems_spec(files, dirs) == r.deep_view() + stems_spec(
                files.subrange(i as int, n as int),
                dirs,
            ),
        decreases n - i,
    {
        let ghost t = files.subrange(i as int, n as int);
        proof {
            assert(t[0] == files[i as int]);
            assert(files[i as int] == file_names@[i as int]@);
            assert(t.drop_first() =~= files.subrange(i as int + 1, n as int));
            reveal_strlit(".ini");
            reveal_strlit(".avd");
        }
        let ghost old_r = r.deep_view();
        let f = file_names[i].as_str();
        let fl = f.unicode_len();
        if ends_with_str(f, ".ini") && fl > 4 {
            let stem = f.substring_char(0, fl - 4).to_owned();
            let mut cand = stem.clone();
            cand.append(".avd");
            proof {
                assert(stem@ =~= stem_of(t[0]));
                assert(cand@ == stem_of(t[0]) + ".avd"@);
            }
            if vec_contains_str(dir_names, cand.as_str()) {
                proof {
                    assert(stem_ok(t[0], dirs));
                }
                r.push(stem);
                proof {
                    assert(r.deep_view() =~= old_r.push(stem_of(t[0])));
                    assert(old_r + stems_spec(t, dirs) =~= r.deep_view() + stems_spec(
                        t.drop_first(),
                        dirs,
                    ));
                }
            } else {
                proof {
                    assert(!stem_ok(t[0], dirs));
                    assert(old_r + stems_spec(t, dirs) =~= r.deep_view() + stems_spec(
                        t.drop_first(),
                        dirs,
                    ));
                }
            }
        } else {
            proof {
                assert(!stem_ok(t[0], dirs));
                assert(old_r + stems_spec(t, dirs) =~= r.deep_view() + stems_spec(
                    t.drop_first(),
                    dirs,
                ));
            }
        }
        i = i + 1;
    }
    proof {
        assert(files.subrange(n as int, n as int) =~= Seq::<Seq<char>>::empty());
        assert(r.deep_view() + stems_spec(files.subrange(n as int, n as int), dirs)
            =~= r.deep_view());
    }
    r
}

/// Combine the enumeration tiers, first success winning, and order the
/// chosen list booted-first: the primary tool listing when it ran, else a
/// non-empty descriptor-directory scan, else the bridge tool's connected
/// devices.
///
/// When every tier fails, the last tier's diagnostic is passed through
/// rather than an empty list: callers treat the failure as zero devices
/// and may show the text, so enumeration still never brings the caller
/// down. The booted-first ordering is a permutation of the chosen tier's
/// list, so distinct identifiers stay distinct
/// (`lemma_booted_first_distinct_ids`).
pub fn assemble_android(
    tier1: Option<Vec<AndroidEmulator>>,
    dir_scan: Option<Vec<AndroidEmulator>>,
    adb: Result<Vec<AndroidEmulator>, String>,
) -> (r: Result<Vec<AndroidEmulator>, String>)
    ensures
        tier1 matches Some(v) ==> (r matches Ok(o) && o@ == booted_first(v@)),
        tier1 is None && dir_scan is Some && dir_scan.unwrap()@.len() > 0 ==> (r matches Ok(o)
            && o@ == booted_first(dir_scan.unwrap()@)),
        tier1 is None && (dir_scan is None || dir_scan.unwrap()@.len() == 0) ==> match adb {
            Ok(v) => r matches Ok(o) && o@ == booted_first(v@),
            Err(e) => r matches Err(x) && x == e,
        },
{
    if let Some(v) = tier1 {
        return Ok(sort_booted_first(v));
    }
    if let Some(v) = dir_scan {
        if v.len() > 0 {
            return Ok(sort_booted_first(v));
        }
    }
    match adb {
        Ok(v) => Ok(sort_booted_first(v)),
        Err(e) => Err(e),
    }
}

} // verus!
