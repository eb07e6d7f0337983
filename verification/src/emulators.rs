//! Device data model and list-level operations: the unified entry type, the
//! booted-first ordering of Android devices, aggregation of the per-platform
//! lists into one sectioned sequence, name lookup, launch dispatch and the
//! plain-text listing.

use vstd::calc;
use vstd::prelude::*;

use crate::text::str_eq;

verus! {

broadcast use vstd::seq_lib::group_seq_lib_default, vstd::seq::group_seq_axioms;

/// A device's point-in-time run state.
#[derive(Clone, Copy, Debug, PartialEq, Eq, Structural)]
pub enum DeviceState {
    Booted,
    Shutdown,
    Available,
}

/// How an Android device was discovered: a locally installed image, or a
/// running device seen through the bridge tool.
#[derive(Clone, Copy, Debug, PartialEq, Eq, Structural)]
pub enum AndroidDeviceKind {
    Image,
    RunningDevice,
}

#[derive(Clone, Debug)]
pub struct AndroidEmulator {
    pub name: String,
    pub id: String,
    pub device_type: AndroidDeviceKind,
    pub state: DeviceState,
}

#[derive(Clone, Debug)]
pub struct IOSSimulator {
    pub name: String,
    pub udid: String,
    pub state: DeviceState,
    pub runtime: String,
}

/// A launchable device, identified by the value its launch command needs.
#[derive(Clone, Debug)]
pub enum EmulatorType {
    Android(String),
    IOS(String),
}

/// A unified entry for the selection list.
#[derive(Clone, Debug)]
pub enum EmulatorEntry {
    SectionHeader(String),
    Android(AndroidEmulator),
    IOS(IOSSimulator),
}

/// The display name of an entry: the header label or the device name.
pub open spec fn entry_name(e: EmulatorEntry) -> Seq<char> {
    match e {
        EmulatorEntry::SectionHeader(s) => s@,
        EmulatorEntry::Android(a) => a.name@,
        EmulatorEntry::IOS(s) => s.name@,
    }
}

impl EmulatorEntry {
    pub fn display_name(&self) -> (r: &str)
        ensures
            r@ == entry_name(*self),
    {
        match self {
            EmulatorEntry::SectionHeader(s) => s.as_str(),
            EmulatorEntry::Android(e) => e.name.as_str(),
            EmulatorEntry::IOS(s) => s.name.as_str(),
        }
    }

    pub fn is_header(&self) -> (r: bool)
        ensures
            r == (*self is SectionHeader),
    {
        matches!(self, EmulatorEntry::SectionHeader(_))
    }
}

/// The text shown for a device state.
pub open spec fn state_label_spec(s: DeviceState) -> Seq<char> {
    match s {
        DeviceState::Booted => "Booted"@,
        DeviceState::Shutdown => "Shutdown"@,
        DeviceState::Available => "Available"@,
    }
}

pub fn state_label(s: DeviceState) -> (r: &'static str)
    ensures
        r@ == state_label_spec(s),
{
    match s {
        DeviceState::Booted => "Booted",
        DeviceState::Shutdown => "Shutdown",
        DeviceState::Available => "Available",
    }
}

/// The text shown for an Android device kind.
pub open spec fn kind_label_spec(k: AndroidDeviceKind) -> Seq<char> {
    match k {
        AndroidDeviceKind::Image => "AVD"@,
        AndroidDeviceKind::RunningDevice => "Running Device"@,
    }
}

pub fn kind_label(k: AndroidDeviceKind) -> (r: &'static str)
    ensures
        r@ == kind_label_spec(k),
{
    match k {
        AndroidDeviceKind::Image => "AVD",
        AndroidDeviceKind::RunningDevice => "Running Device",
    }
}

pub open spec fn is_booted(e: AndroidEmulator) -> bool {
    e.state == DeviceState::Booted
}

/// A field-for-field copy, equal to the source value.
pub fn clone_android(e: &AndroidEmulator) -> (r: AndroidEmulator)
    ensures
        r == *e,
{
    AndroidEmulator {
        name: e.name.clone(),
        id: e.id.clone(),
        device_type: e.device_type,
        state: e.state,
    }
}

/// A field-for-field copy, equal to the source value.
pub fn clone_ios(s: &IOSSimulator) -> (r: IOSSimulator)
    ensures
        r == *s,
{
    IOSSimulator {
        name: s.name.clone(),
        udid: s.udid.clone(),
        state: s.state,
        runtime: s.runtime.clone(),
    }
}

/// The booted elements of `s`, in their given order.
pub open spec fn booted_part(s: Seq<AndroidEmulator>) -> Seq<AndroidEmulator>
    decreases s.len(),
{
    if s.len() == 0 {
        seq![]
    } else if is_booted(s[0]) {
        seq![s[0]] + booted_part(s.drop_first())
    } else {
        booted_part(s.drop_first())
    }
}

/// The non-booted elements of `s`, in their given order.
pub open spec fn shutdown_part(s: Seq<AndroidEmulator>) -> Seq<AndroidEmulator>
    decreases s.len(),
{
    if s.len() == 0 {
        seq![]
    } else if !is_booted(s[0]) {
        seq![s[0]] + shutdown_part(s.drop_first())
    } else {
        shutdown_part(s.drop_first())
    }
}

/// The booted-first ordering of an Android device list: booted devices
/// first, then the rest, each group keeping its discovery order.
pub open spec fn booted_first(s: Seq<AndroidEmulator>) -> Seq<AndroidEmulator> {
    booted_part(s) + shutdown_part(s)
}

/// Stable partition of the device list so that all booted devices precede
/// all shutdown ones, preserving discovery order inside each group.
pub fn sort_booted_first(v: Vec<AndroidEmulator>) -> (r: Vec<AndroidEmulator>)
    ensures
        r@ == booted_first(v@),
        distinct_ids(v@) ==> distinct_ids(r@),
{
    let n = v.len();
    let mut booted: Vec<AndroidEmulator> = Vec::new();
    let mut rest: Vec<AndroidEmulator> = Vec::new();
    let mut i: usize = 0;
    proof {
        assert(v@.subrange(0, n as int) =~= v@);
    }
    while i < n
        invariant
            n == v@.len(),
            0 <= i <= n,
            booted_part(v@) == booted@ + booted_part(v@.subrange(i as int, n as int)),
            shutdown_part(v@) == rest@ + shutdown_part(v@.subrange(i as int, n as int)),
        decreases n - i,
    {
        let ghost t = v@.subrange(i as int, n as int);
        proof {
            assert(t[0] == v@[i as int]);
            assert(t.drop_first() =~= v@.subrange(i as int + 1, n as int));
        }
        let e = clone_android(&v[i]);
        if matches!(e.state, DeviceState::Booted) {
            booted.push(e);
        } else {
            rest.push(e);
        }
        i = i + 1;
    }
    proof {
        assert(v@.subrange(n as int, n as int) =~= Seq::<AndroidEmulator>::empty());
        assert(booted@ + booted_part(v@.subrange(n as int, n as int)) =~= booted@);
        assert(rest@ + shutdown_part(v@.subrange(n as int, n as int)) =~= rest@);
    }
    let mut r = booted;
    let mut j: usize = 0;
    let m = rest.len();
    while j < m
        invariant
            m == rest@.len(),
            0 <= j <= m,
            r@ == booted_part(v@) + rest@.subrange(0, j as int),
        decreases m - j,
    {
        r.push(clone_android(&rest[j]));
        proof {
            assert(rest@.subrange(0, j as int).push(rest@[j as int]) =~= rest@.subrange(
                0,
                j as int + 1,
            ));
        }
        j = j + 1;
    }
    proof {
        assert(rest@.subrange(0, m as int) =~= rest@);
        if distinct_ids(v@) {
            lemma_booted_first_distinct_ids(v@);
        }
    }
    r
}

/// The device identifiers of a list, in order.
pub open spec fn id_seq(s: Seq<AndroidEmulator>) -> Seq<Seq<char>> {
    s.map_values(|e: AndroidEmulator| e.id@)
}

/// No two devices of the list share an identifier.
pub open spec fn distinct_ids(s: Seq<AndroidEmulator>) -> bool {
    id_seq(s).no_duplicates()
}

proof fn lemma_id_seq_concat(a: Seq<AndroidEmulator>, b: Seq<AndroidEmulator>)
    ensures
        id_seq(a + b) == id_seq(a) + id_seq(b),
{
    assert(id_seq(a + b) =~= id_seq(a) + id_seq(b));
}

/// The booted-first ordering is a permutation: it neither loses, adds
/// nor duplicates device identifiers.
pub proof fn lemma_booted_first_permutes(s: Seq<AndroidEmulator>)
    ensures
        id_seq(booted_first(s)).to_multiset() == id_seq(s).to_multiset(),
    decreases s.len(),
{
    broadcast use vstd::multiset::group_multiset_axioms;

    if s.len() == 0 {
        assert(booted_first(s) =~= s);
    } else {
        let rest = s.drop_first();
        lemma_booted_first_permutes(rest);
        let x = s[0];
        let single = seq![x.id@];
        assert(id_seq(seq![x]) =~= single);
        assert(s =~= seq![x] + rest);
        lemma_id_seq_concat(seq![x], rest);
        vstd::seq_lib::lemma_multiset_commutative(single, id_seq(rest));
        lemma_id_seq_concat(booted_part(rest), shutdown_part(rest));
        vstd::seq_lib::lemma_multiset_commutative(
            id_seq(booted_part(rest)),
            id_seq(shutdown_part(rest)),
        );
        if is_booted(x) {
            assert(booted_part(s) == seq![x] + booted_part(rest));
            assert(shutdown_part(s) == shutdown_part(rest));
            lemma_id_seq_concat(booted_part(s), shutdown_part(s));
            lemma_id_seq_concat(seq![x], booted_part(rest));
            vstd::seq_lib::lemma_multiset_commutative(
                id_seq(booted_part(s)),
                id_seq(shutdown_part(s)),
            );
            vstd::seq_lib::lemma_multiset_commutative(single, id_seq(booted_part(rest)));
            assert(id_seq(booted_part(s)) == single + id_seq(booted_part(rest)));
            assert(id_seq(booted_first(s)).to_multiset() =~= id_seq(s).to_multiset());
        } else {
            assert(booted_part(s) == booted_part(rest));
            assert(shutdown_part(s) == seq![x] + shutdown_part(rest));
            lemma_id_seq_concat(booted_part(s), shutdown_part(s));
            lemma_id_seq_concat(seq![x], shutdown_part(rest));
            vstd::seq_lib::lemma_multiset_commutative(
                id_seq(booted_part(s)),
                id_seq(shutdown_part(s)),
            );
            vstd::seq_lib::lemma_multiset_commutative(single, id_seq(shutdown_part(rest)));
            assert(id_seq(shutdown_part(s)) == single + id_seq(shutdown_part(rest)));
            assert(id_seq(booted_first(s)).to_multiset() =~= id_seq(s).to_multiset());
        }
    }
}

/// A list whose identifiers are pairwise distinct keeps that distinctness
/// under the booted-first ordering.
pub proof fn lemma_booted_first_distinct_ids(s: Seq<AndroidEmulator>)
    requires
        distinct_ids(s),
    ensures
        distinct_ids(booted_first(s)),
{
    broadcast use vstd::seq_lib::group_to_multiset_ensures;

    lemma_booted_first_permutes(s);
    id_seq(s).lemma_multiset_has_no_duplicates();
    assert(forall|x: Seq<char>|
        id_seq(booted_first(s)).to_multiset().contains(x) ==> id_seq(
            booted_first(s),
        ).to_multiset().count(x) == 1);
    id_seq(booted_first(s)).lemma_multiset_has_no_duplicates_conv();
}

proof fn lemma_booted_part_all_booted(s: Seq<AndroidEmulator>)
    ensures
        forall|i: int| 0 <= i < booted_part(s).len() ==> is_booted(#[trigger] booted_part(s)[i]),
        forall|i: int|
            0 <= i < shutdown_part(s).len() ==> !is_booted(#[trigger] shutdown_part(s)[i]),
    decreases s.len(),
{
    if s.len() > 0 {
        let t = s.drop_first();
        lemma_booted_part_all_booted(t);
        if is_booted(s[0]) {
            assert forall|i: int| 0 <= i < booted_part(s).len() implies is_booted(
                #[trigger] booted_part(s)[i],
            ) by {
                if i > 0 {
                    assert(booted_part(s)[i] == booted_part(t)[i - 1]);
                }
            }
        } else {
            assert forall|i: int| 0 <= i < shutdown_part(s).len() implies !is_booted(
                #[trigger] shutdown_part(s)[i],
            ) by {
                if i > 0 {
                    assert(shutdown_part(s)[i] == shutdown_part(t)[i - 1]);
                }
            }
        }
    }
}

proof fn lemma_parts_of_uniform(s: Seq<AndroidEmulator>)
    ensures
        (forall|i: int| 0 <= i < s.len() ==> is_booted(#[trigger] s[i])) ==> booted_part(s) == s
            && shutdown_part(s) == Seq::<AndroidEmulator>::empty(),
        (forall|i: int| 0 <= i < s.len() ==> !is_booted(#[trigger] s[i])) ==> shutdown_part(s) == s
            && booted_part(s) == Seq::<AndroidEmulator>::empty(),
    decreases s.len(),
{
    if s.len() == 0 {
    } else {
        lemma_parts_of_uniform(s.drop_first());
        if forall|i: int| 0 <= i < s.len() ==> is_booted(#[trigger] s[i]) {
            assert(forall|i: int|
                0 <= i < s.drop_first().len() ==> is_booted(#[trigger] s.drop_first()[i]));
            assert(booted_part(s) =~= s);
        }
        if forall|i: int| 0 <= i < s.len() ==> !is_booted(#[trigger] s[i]) {
            assert(forall|i: int|
                0 <= i < s.drop_first().len() ==> !is_booted(#[trigger] s.drop_first()[i]));
            assert(shutdown_part(s) =~= s);
        }
    }
}

proof fn lemma_parts_concat(a: Seq<AndroidEmulator>, b: Seq<AndroidEmulator>)
    ensures
        booted_part(a + b) == booted_part(a) + booted_part(b),
    decreases a.len(),
{
    if a.len() == 0 {
        assert(a + b =~= b);
        assert(booted_part(a) + booted_part(b) =~= booted_part(b));
    } else {
        lemma_parts_concat(a.drop_first(), b);
        assert((a + b).drop_first() =~= a.drop_first() + b);
        assert((a + b)[0] == a[0]);
        if is_booted(a[0]) {
            assert(seq![a[0]] + (booted_part(a.drop_first()) + booted_part(b)) =~= (seq![a[0]]
                + booted_part(a.drop_first())) + booted_part(b));
        }
    }
}

/// In a booted-first ordering, every booted device precedes every shutdown
/// one, and each state group keeps the discovery order of the input list.
pub proof fn lemma_booted_first_order(s: Seq<AndroidEmulator>)
    ensures
        forall|i: int, j: int|
            0 <= i < j < booted_first(s).len() && is_booted(#[trigger] booted_first(s)[j])
                ==> is_booted(#[trigger] booted_first(s)[i]),
        booted_part(booted_first(s)) == booted_part(s),
        shutdown_part(booted_first(s)) == shutdown_part(s),
{
    lemma_booted_part_all_booted(s);
    let bp = booted_part(s);
    let sp = shutdown_part(s);
    assert forall|i: int, j: int|
        0 <= i < j < booted_first(s).len() && is_booted(
            #[trigger] booted_first(s)[j],
        ) implies is_booted(#[trigger] booted_first(s)[i]) by {
        if j >= bp.len() {
            assert(!is_booted(sp[j - bp.len()]));
        }
    }
    lemma_parts_concat(bp, sp);
    lemma_parts_of_uniform(bp);
    lemma_parts_of_uniform(sp);
    calc! {
        (==)
        booted_part(booted_first(s)); {}
        booted_part(bp) + booted_part(sp); {}
        bp + Seq::<AndroidEmulator>::empty(); {
            assert(bp + Seq::<AndroidEmulator>::empty() =~= bp);
        }
        bp;
    }
    lemma_shutdown_parts_concat(bp, sp);
    calc! {
        (==)
        shutdown_part(booted_first(s)); {}
        shutdown_part(bp) + shutdown_part(sp); {}
        Seq::<AndroidEmulator>::empty() + sp; {
            assert(Seq::<AndroidEmulator>::empty() + sp =~= sp);
        }
        sp;
    }
}

proof fn lemma_shutdown_parts_concat(a: Seq<AndroidEmulator>, b: Seq<AndroidEmulator>)
    ensures
        shutdown_part(a + b) == shutdown_part(a) + shutdown_part(b),
    decreases a.len(),
{
    if a.len() == 0 {
        assert(a + b =~= b);
        assert(shutdown_part(a) + shutdown_part(b) =~= shutdown_part(b));
    } else {
        lemma_shutdown_parts_concat(a.drop_first(), b);
        assert((a + b).drop_first() =~= a.drop_first() + b);
        assert((a + b)[0] == a[0]);
        if !is_booted(a[0]) {
            assert(seq![a[0]] + (shutdown_part(a.drop_first()) + shutdown_part(b)) =~= (seq![a[0]]
                + shutdown_part(a.drop_first())) + shutdown_part(b));
        }
    }
}


/// `r` is the aggregation of the two platform lists: one section header per
/// non-empty platform, each followed by that platform's devices in order.
pub open spec fn aggregated(
    android: Seq<AndroidEmulator>,
    ios: Seq<IOSSimulator>,
    r: Seq<EmulatorEntry>,
) -> bool {
    let na = android.len() as int;
    let ni = ios.len() as int;
    let ha: int = if na > 0 { 1 } else { 0 };
    let hi: int = if ni > 0 { 1 } else { 0 };
    &&& r.len() == ha + na + hi + ni
    &&& (na > 0 ==> r[0] is SectionHeader && entry_name(r[0]) == "Android Emulators"@)
    &&& (forall|i: int| 0 <= i < na ==> r[1 + i] == EmulatorEntry::Android(android[i]))
    &&& (ni > 0 ==> r[ha + na] is SectionHeader && entry_name(r[ha + na]) == "iOS Simulators"@)
    &&& (forall|i: int| 0 <= i < ni ==> r[ha + na + 1 + i] == EmulatorEntry::IOS(ios[i]))
}

/// Merge the per-platform device lists into one sectioned entry sequence:
/// a header is emitted for a platform exactly when it has devices, and it
/// immediately precedes them.
pub fn collect_all_entries(android: &Vec<AndroidEmulator>, ios: &Vec<IOSSimulator>) -> (r: Vec<
    EmulatorEntry,
>)
    ensures
        aggregated(android@, ios@, r@),
{
    let mut r: Vec<EmulatorEntry> = Vec::new();
    let na = android.len();
    let ni = ios.len();
    if na > 0 {
        r.push(EmulatorEntry::SectionHeader(String::from_str("Android Emulators")));
        let mut i: usize = 0;
        while i < na
            invariant
                na == android@.len(),
                r@.len() == 1 + i,
                0 <= i <= na,
                r@[0] is SectionHeader && entry_name(r@[0]) == "Android Emulators"@,
                forall|k: int|
                    0 <= k < i ==> r@[1 + k] == EmulatorEntry::Android(android@[k]),
            decreases na - i,
        {
            r.push(EmulatorEntry::Android(clone_android(&android[i])));
            i = i + 1;
        }
    }
    if ni > 0 {
        let ghost base = r@.len() as int;
        r.push(EmulatorEntry::SectionHeader(String::from_str("iOS Simulators")));
        let mut i: usize = 0;
        while i < ni
            invariant
                na == android@.len(),
                ni == ios@.len(),
                base == if na > 0 { 1 + na as int } else { 0 },
                r@.len() == base + 1 + i,
                0 <= i <= ni,
                na > 0 ==> r@[0] is SectionHeader && entry_name(r@[0]) == "Android Emulators"@,
                forall|k: int|
                    0 <= k < na ==> r@[1 + k] == EmulatorEntry::Android(android@[k]),
                r@[base] is SectionHeader && entry_name(r@[base]) == "iOS Simulators"@,
                forall|k: int| 0 <= k < i ==> r@[base + 1 + k] == EmulatorEntry::IOS(ios@[k]),
            decreases ni - i,
        {
            r.push(EmulatorEntry::IOS(clone_ios(&ios[i])));
            i = i + 1;
        }
    }
    r
}

/// In an aggregated entry sequence the headers stand exactly at the head of
/// each non-empty platform group, and every header is immediately followed
/// by a device entry: a header never follows its group and never dangles.
pub proof fn lemma_aggregate_headers(
    android: Seq<AndroidEmulator>,
    ios: Seq<IOSSimulator>,
    r: Seq<EmulatorEntry>,
)
    requires
        aggregated(android, ios, r),
    ensures
        forall|h: int|
            0 <= h < r.len() ==> ((r[h] is SectionHeader) <==> ((android.len() > 0 && h == 0) || (
            ios.len() > 0 && h == (if android.len() > 0 {
                android.len() + 1
            } else {
                0
            })))),
        forall|h: int|
            0 <= h < r.len() && (#[trigger] r[h]) is SectionHeader ==> h + 1 < r.len() && !(r[h
                + 1] is SectionHeader),
{
    let na = android.len() as int;
    let ni = ios.len() as int;
    let ha: int = if na > 0 { 1 } else { 0 };
    assert forall|h: int| 0 <= h < r.len() implies ((r[h] is SectionHeader) <==> ((na > 0 && h == 0)
        || (ni > 0 && h == (if na > 0 { na + 1 } else { 0 })))) by {
        if 1 <= h < 1 + na && na > 0 {
            assert(r[h] == EmulatorEntry::Android(android[h - 1]));
        }
        if ha + na + 1 <= h < ha + na + 1 + ni && ni > 0 {
            assert(r[h] == EmulatorEntry::IOS(ios[h - (ha + na + 1)]));
        }
    }
    assert forall|h: int|
        0 <= h < r.len() && (#[trigger] r[h]) is SectionHeader implies h + 1 < r.len() && !(r[h
        + 1] is SectionHeader) by {
        if na > 0 && h == 0 {
            assert(r[1] == EmulatorEntry::Android(android[0]));
        } else {
            assert(r[h + 1] == EmulatorEntry::IOS(ios[0]));
        }
    }
}

/// The first Android device whose name or identifier equals `q`.
pub open spec fn find_android_spec(s: Seq<AndroidEmulator>, q: Seq<char>) -> Option<
    AndroidEmulator,
>
    decreases s.len(),
{
    if s.len() == 0 {
        None
    } else if s[0].name@ == q || s[0].id@ == q {
        Some(s[0])
    } else {
        find_android_spec(s.drop_first(), q)
    }
}

/// The first iOS device whose name or identifier equals `q`.
pub open spec fn find_ios_spec(s: Seq<IOSSimulator>, q: Seq<char>) -> Option<IOSSimulator>
    decreases s.len(),
{
    if s.len() == 0 {
        None
    } else if s[0].name@ == q || s[0].udid@ == q {
        Some(s[0])
    } else {
        find_ios_spec(s.drop_first(), q)
    }
}

/// Resolve a device by exact name or identifier match, searching the Android
/// list before the iOS list; an unmatched name yields the not-found error.
pub fn find_emulator(name: &str, android: &Vec<AndroidEmulator>, ios: &Vec<IOSSimulator>) -> (r:
    Result<EmulatorType, String>)
    ensures
        match find_android_spec(android@, name@) {
            Some(a) => r == Ok::<EmulatorType, String>(EmulatorType::Android(a.id)),
            None => match find_ios_spec(ios@, name@) {
                Some(s) => r == Ok::<EmulatorType, String>(EmulatorType::IOS(s.udid)),
                None => r matches Err(m) && m@ == "Emulator '"@ + name@ + "' not found"@,
            },
        },
{
    let na = android.len();
    let mut i: usize = 0;
    proof {
        assert(android@.subrange(0, na as int) =~= android@);
    }
    while i < na
        invariant
            na == android@.len(),
            0 <= i <= na,
            find_android_spec(android@, name@) == find_android_spec(
                android@.subrange(i as int, na as int),
                name@,
            ),
        decreases na - i,
    {
        let ghost t = android@.subrange(i as int, na as int);
        proof {
            assert(t[0] == android@[i as int]);
            assert(t.drop_first() =~= android@.subrange(i as int + 1, na as int));
        }
        if str_eq(android[i].name.as_str(), name) || str_eq(android[i].id.as_str(), name) {
            return Ok(EmulatorType::Android(android[i].id.clone()));
        }
        i = i + 1;
    }
    proof {
        assert(android@.subrange(na as int, na as int) =~= Seq::<AndroidEmulator>::empty());
    }
    let ni = ios.len();
    let mut j: usize = 0;
    proof {
        assert(ios@.subrange(0, ni as int) =~= ios@);
    }
    while j < ni
        invariant
            ni == ios@.len(),
            0 <= j <= ni,
            find_android_spec(android@, name@) is None,
            find_ios_spec(ios@, name@) == find_ios_spec(
                ios@.subrange(j as int, ni as int),
                name@,
            ),
        decreases ni - j,
    {
        let ghost t = ios@.subrange(j as int, ni as int);
        proof {
            assert(t[0] == ios@[j as int]);
            assert(t.drop_first() =~= ios@.subrange(j as int + 1, ni as int));
        }
        if str_eq(ios[j].name.as_str(), name) || str_eq(ios[j].udid.as_str(), name) {
            return Ok(EmulatorType::IOS(ios[j].udid.clone()));
        }
        j = j + 1;
    }
    proof {
        assert(ios@.subrange(ni as int, ni as int) =~= Seq::<IOSSimulator>::empty());
    }
    let mut m = String::new();
    m.append("Emulator '");
    m.append(name);
    m.append("' not found");
    proof {
        assert(m@ =~= "Emulator '"@ + name@ + "' not found"@);
    }
    Err(m)
}

/// The launch action for an entry: a device entry names the platform value
/// its launch command needs; a section header cannot be opened.
pub fn open_entry(entry: &EmulatorEntry) -> (r: Result<EmulatorType, String>)
    ensures
        match *entry {
            EmulatorEntry::Android(a) => r == Ok::<EmulatorType, String>(
                EmulatorType::Android(a.id),
            ),
            EmulatorEntry::IOS(s) => r == Ok::<EmulatorType, String>(EmulatorType::IOS(s.udid)),
            EmulatorEntry::SectionHeader(_) => r matches Err(m) && m@
                == "Cannot open a section header"@,
        },
{
    match entry {
        EmulatorEntry::Android(e) => Ok(EmulatorType::Android(e.id.clone())),
        EmulatorEntry::IOS(s) => Ok(EmulatorType::IOS(s.udid.clone())),
        EmulatorEntry::SectionHeader(_) => Err(String::from_str("Cannot open a section header")),
    }
}


/// The listing line for an Android device.
pub open spec fn android_line_spec(e: AndroidEmulator) -> Seq<char> {
    "  "@ + e.name@ + " ["@ + state_label_spec(e.state) + "] ("@ + kind_label_spec(e.device_type)
        + ")\n"@
}

/// The listing line for an iOS device.
pub open spec fn ios_line_spec(s: IOSSimulator) -> Seq<char> {
    "  "@ + s.name@ + " ["@ + state_label_spec(s.state) + "] ("@ + s.runtime@ + ")\n"@
}

pub open spec fn android_lines_spec(s: Seq<AndroidEmulator>) -> Seq<char>
    decreases s.len(),
{
    if s.len() == 0 {
        Seq::empty()
    } else {
        android_line_spec(s[0]) + android_lines_spec(s.drop_first())
    }
}

pub open spec fn ios_lines_spec(s: Seq<IOSSimulator>) -> Seq<char>
    decreases s.len(),
{
    if s.len() == 0 {
        Seq::empty()
    } else {
        ios_line_spec(s[0]) + ios_lines_spec(s.drop_first())
    }
}

/// The Android half of the plain-text listing: a heading and one line per
/// device, or a placeholder or diagnostic when there are none.
pub open spec fn android_section_spec(r: Result<Seq<AndroidEmulator>, Seq<char>>) -> Seq<char> {
    match r {
        Ok(v) => if v.len() > 0 {
            "Android Emulators:\n"@ + android_lines_spec(v) + "\n"@
        } else {
            "No Android emulators found\n\n"@
        },
        Err(e) => "Android emulators error: "@ + e + "\n\n"@,
    }
}

/// The iOS half of the plain-text listing.
pub open spec fn ios_section_spec(r: Result<Seq<IOSSimulator>, Seq<char>>) -> Seq<char> {
    match r {
        Ok(v) => if v.len() > 0 {
            "iOS Simulators:\n"@ + ios_lines_spec(v)
        } else {
            "No iOS simulators found\n"@
        },
        Err(e) => "iOS simulators error: "@ + e + "\n"@,
    }
}

/// The enumeration outcome of one platform, by view.
pub open spec fn android_result_view(r: Result<Vec<AndroidEmulator>, String>) -> Result<
    Seq<AndroidEmulator>,
    Seq<char>,
> {
    match r {
        Ok(v) => Ok(v@),
        Err(e) => Err(e@),
    }
}

pub open spec fn ios_result_view(r: Result<Vec<IOSSimulator>, String>) -> Result<
    Seq<IOSSimulator>,
    Seq<char>,
> {
    match r {
        Ok(v) => Ok(v@),
        Err(e) => Err(e@),
    }
}

/// The plain-text listing of both platforms, grouped by platform heading,
/// one device per line with name, state and kind or runtime.
pub fn format_emulator_list(
    android: &Result<Vec<AndroidEmulator>, String>,
    ios: &Result<Vec<IOSSimulator>, String>,
) -> (out: String)
    ensures
        out@ == android_section_spec(android_result_view(*android)) + ios_section_spec(
            ios_result_view(*ios),
        ),
{
    let mut out = String::new();
    match android {
        Ok(v) => {
            if v.len() > 0 {
                out.append("Android Emulators:\n");
                let n = v.len();
                let mut i: usize = 0;
                proof {
                    assert(v@.subrange(0, n as int) =~= v@);
                    assert(out@ =~= "Android Emulators:\n"@);
                }
                while i < n
                    invariant
                        n == v@.len(),
                        0 <= i <= n,
                        "Android Emulators:\n"@ + android_lines_spec(v@) == out@
                            + android_lines_spec(v@.subrange(i as int, n as int)),
                    decreases n - i,
                {
                    let ghost t = v@.subrange(i as int, n as int);
                    proof {
                        assert(t[0] == v@[i as int]);
                        assert(t.drop_first() =~= v@.subrange(i as int + 1, n as int));
                    }
                    let ghost before = out@;
                    out.append("  ");
                    out.append(v[i].name.as_str());
                    out.append(" [");
                    out.append(state_label(v[i].state));
                    out.append("] (");
                    out.append(kind_label(v[i].device_type));
                    out.append(")\n");
                    proof {
                        assert(out@ =~= before + android_line_spec(v@[i as int]));
                        assert(before + android_lines_spec(t) =~= out@ + android_lines_spec(
                            t.drop_first(),
                        ));
                    }
                    i = i + 1;
                }
                proof {
                    assert(v@.subrange(n as int, n as int) =~= Seq::<AndroidEmulator>::empty());
                }
                out.append("\n");
                proof {
                    assert(out@ =~= "Android Emulators:\n"@ + android_lines_spec(v@) + "\n"@);
                }
            } else {
                out.append("No Android emulators found\n\n");
                proof {
                    assert(out@ =~= "No Android emulators found\n\n"@);
                }
            }
        },
        Err(e) => {
            out.append("Android emulators error: ");
            out.append(e.as_str());
            out.append("\n\n");
            proof {
                assert(out@ =~= "Android emulators error: "@ + e@ + "\n\n"@);
            }
        },
    }
    let ghost first = out@;
    match ios {
        Ok(v) => {
            if v.len() > 0 {
                out.append("iOS Simulators:\n");
                let n = v.len();
                let mut i: usize = 0;
                proof {
                    assert(v@.subrange(0, n as int) =~= v@);
                }
                while i < n
                    invariant
                        n == v@.len(),
                        0 <= i <= n,
                        first + "iOS Simulators:\n"@ + ios_lines_spec(v@) == out@
                            + ios_lines_spec(v@.subrange(i as int, n as int)),
                    decreases n - i,
                {
                    let ghost t = v@.subrange(i as int, n as int);
                    proof {
                        assert(t[0] == v@[i as int]);
                        assert(t.drop_first() =~= v@.subrange(i as int + 1, n as int));
                    }
                    let ghost before = out@;
                    out.append("  ");
                    out.append(v[i].name.as_str());
                    out.append(" [");
                    out.append(state_label(v[i].state));
                    out.append("] (");
                    out.append(v[i].runtime.as_str());
                    out.append(")\n");
                    proof {
                        assert(out@ =~= before + ios_line_spec(v@[i as int]));
                        assert(before + ios_lines_spec(t) =~= out@ + ios_lines_spec(
                            t.drop_first(),
                        ));
                    }
                    i = i + 1;
                }
                proof {
                    assert(v@.subrange(n as int, n as int) =~= Seq::<IOSSimulator>::empty());
                    assert(out@ =~= first + ("iOS Simulators:\n"@ + ios_lines_spec(v@)));
                }
            } else {
                out.append("No iOS simulators found\n");
                proof {
                    assert(out@ =~= first + "No iOS simulators found\n"@);
                }
            }
        },
        Err(e) => {
            out.append("iOS simulators error: ");
            out.append(e.as_str());
            out.append("\n");
            proof {
                assert(out@ =~= first + ("iOS simulators error: "@ + e@ + "\n"@));
            }
        },
    }
    out
}

} // verus!
