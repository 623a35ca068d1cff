//! Running applications: read off the window list, and looked up by name.

use std::collections::HashSet;

use vstd::prelude::*;
use vstd::std_specs::hash::group_hash_axioms;

use crate::error::Error;
#[allow(unused_imports)]
use crate::error::ErrorView;
use crate::pid::parse_pid_target;
#[allow(unused_imports)]
use crate::pid::pid_target;
use crate::text::{same_text, starts_with, to_lowercase};
#[allow(unused_imports)]
use crate::text::{has_prefix, lowercase, texts};

verus! {

broadcast use group_hash_axioms;

/// A number of the window list, read as a 64-bit integer.
#[derive(Clone, Copy, Debug, PartialEq, Eq, Structural)]
pub struct Number {
    /// What the reading left in the integer.
    pub value: i64,
    /// Whether the number was converted without loss.
    pub exact: bool,
}

/// The extent of a window, as far as the window list gives it.
#[derive(Clone, Copy, Debug, PartialEq, Eq)]
pub struct Bounds {
    pub width: Option<Number>,
    pub height: Option<Number>,
}

/// One entry of the window list. What an entry does not give is `None`.
#[derive(Debug, PartialEq, Eq)]
pub struct WindowEntry {
    pub owner_pid: Option<Number>,
    pub owner_name: Option<String>,
    pub number: Option<Number>,
    pub layer: Option<Number>,
    pub bounds: Option<Bounds>,
    pub title: Option<String>,
}

/// The processes that own windows without being applications.
pub open spec fn system_service_names() -> Seq<Seq<char>> {
    seq![
        "Accessibility"@,
        "AutoFill"@,
        "Control Centre"@,
        "Control Centre Helper"@,
        "ControlCenter"@,
        "CursorUIViewService"@,
        "Dock"@,
        "Notification Centre"@,
        "NotificationCenter"@,
        "ScreenCaptureKit"@,
        "Spotlight"@,
        "ThemeWidgetControlViewService"@,
        "Universal Control"@,
        "Wallpaper"@,
        "Window Server"@,
        "WindowManager"@,
        "coreautha"@,
        "loginwindow"@,
    ]
}

/// Whether `name` is that of a system service.
pub fn is_system_service(name: &str) -> (r: bool)
    ensures
        r == system_service_names().contains(name@),
{
    let names: [&str; 18] = [
        "Accessibility",
        "AutoFill",
        "Control Centre",
        "Control Centre Helper",
        "ControlCenter",
        "CursorUIViewService",
        "Dock",
        "Notification Centre",
        "NotificationCenter",
        "ScreenCaptureKit",
        "Spotlight",
        "ThemeWidgetControlViewService",
        "Universal Control",
        "Wallpaper",
        "Window Server",
        "WindowManager",
        "coreautha",
        "loginwindow",
    ];
    let mut i: usize = 0;
    while i < 18
        invariant
            i <= 18,
            names@.len() == 18,
            system_service_names().len() == 18,
            forall|j: int| 0 <= j < 18 ==> (#[trigger] names@[j])@ == system_service_names()[j],
            forall|j: int| 0 <= j < i ==> #[trigger] system_service_names()[j] != name@,
        decreases 18 - i,
    {
        let service: &str = names[i];
        if same_text(service, name) {
            assert(system_service_names()[i as int] == name@);
            return true;
        }
        assert(names@[i as int]@ == system_service_names()[i as int]);
        i += 1;
    }
    false
}

/// The process that an entry belongs to, where the entry says so.
pub open spec fn entry_pid(entry: WindowEntry) -> Option<i32> {
    match entry.owner_pid {
        Some(n) => if n.exact && n.value > 0 {
            Some(n.value as i32)
        } else {
            None
        },
        None => None,
    }
}

/// Whether an entry's owner has the name of an application.
pub open spec fn names_application(entry: WindowEntry) -> bool {
    &&& entry.owner_name is Some
    &&& entry.owner_name->0@.len() > 0
    &&& !system_service_names().contains(entry.owner_name->0@)
}

/// Whether entry `i` is the first of its process.
pub open spec fn is_first_of_process(entries: Seq<WindowEntry>, i: int) -> bool {
    &&& entry_pid(entries[i]) is Some
    &&& forall|j: int|
        0 <= j < i ==> #[trigger] entry_pid(entries[j]) != entry_pid(entries[i])
}

/// The applications that a window list shows: one for each process whose first
/// entry names an application, in the order of those entries.
pub open spec fn applications_of(entries: Seq<WindowEntry>) -> Seq<(i32, Seq<char>)>
    decreases entries.len(),
{
    if entries.len() == 0 {
        Seq::empty()
    } else {
        let rest = applications_of(entries.drop_last());
        let last = entries.last();
        if is_first_of_process(entries, entries.len() - 1) && names_application(last) {
            rest.push((entry_pid(last)->0, last.owner_name->0@))
        } else {
            rest
        }
    }
}

proof fn applications_come_from_entries(entries: Seq<WindowEntry>, k: int)
    requires
        0 <= k < applications_of(entries).len(),
    ensures
        exists|j: int|
            0 <= j < entries.len() && #[trigger] entry_pid(entries[j]) == Some(
                applications_of(entries)[k].0,
            ),
    decreases entries.len(),
{
    let rest = applications_of(entries.drop_last());
    if k < rest.len() {
        applications_come_from_entries(entries.drop_last(), k);
        let j = choose|j: int|
            0 <= j < entries.len() - 1 && #[trigger] entry_pid(entries.drop_last()[j]) == Some(
                rest[k].0,
            );
        assert(entry_pid(entries[j]) == Some(rest[k].0));
    } else {
        assert(entry_pid(entries[entries.len() - 1]) == Some(applications_of(entries)[k].0));
    }
}

/// No process is listed twice.
pub proof fn applications_are_distinct(entries: Seq<WindowEntry>, i: int, k: int)
    requires
        0 <= i < k < applications_of(entries).len(),
    ensures
        applications_of(entries)[i].0 != applications_of(entries)[k].0,
    decreases entries.len(),
{
    let rest = applications_of(entries.drop_last());
    if k < rest.len() {
        applications_are_distinct(entries.drop_last(), i, k);
    } else {
        applications_come_from_entries(entries.drop_last(), i);
        let j = choose|j: int|
            0 <= j < entries.len() - 1 && #[trigger] entry_pid(entries.drop_last()[j]) == Some(
                rest[i].0,
            );
        assert(entry_pid(entries[j]) != entry_pid(entries[entries.len() - 1]));
    }
}

/// Nothing is listed without a name, nor under the name of a system service.
pub proof fn applications_are_named(entries: Seq<WindowEntry>, k: int)
    requires
        0 <= k < applications_of(entries).len(),
    ensures
        applications_of(entries)[k].1.len() > 0,
        !system_service_names().contains(applications_of(entries)[k].1),
    decreases entries.len(),
{
    if k < applications_of(entries.drop_last()).len() {
        applications_are_named(entries.drop_last(), k);
    }
}

/// A list of applications, with the names as texts.
pub open spec fn listed(apps: Seq<(i32, String)>) -> Seq<(i32, Seq<char>)> {
    apps.map_values(|a: (i32, String)| (a.0, a.1@))
}

/// The applications that the window list shows. A process counts by its first
/// entry: where that one has no name, or a system service's, the process is left
/// out, whatever its later entries say.
pub fn running_apps_native(entries: &Vec<WindowEntry>) -> (r: Vec<(i32, String)>)
    ensures
        listed(r@) == applications_of(entries@),
{
    let mut seen: HashSet<i32> = HashSet::new();
    let mut result: Vec<(i32, String)> = Vec::new();
    let mut i: usize = 0;
    while i < entries.len()
        invariant
            i <= entries.len(),
            listed(result@) =~= applications_of(entries@.take(i as int)),
            forall|p: i32| #[trigger]
                seen@.contains(p) <==> exists|j: int|
                    0 <= j < i && #[trigger] entry_pid(entries@[j]) == Some(p),
        decreases entries.len() - i,
    {
        let ghost before = entries@.take(i as int);
        let ghost now = entries@.take(i + 1);
        assert(now.drop_last() =~= before);
        let entry = &entries[i];
        assert(now.last() == *entry);
        assert(forall|j: int| 0 <= j < i ==> now[j] == entries@[j]);
        if let Some(number) = entry.owner_pid {
            if number.exact && number.value > 0 {
                let pid: i32 = number.value as i32;
                let ghost known = seen@;
                let fresh = seen.insert(pid);
                assert(entry_pid(now[i as int]) == Some(pid));
                assert(fresh == is_first_of_process(now, i as int)) by {
                    if known.contains(pid) {
                        let j = choose|j: int|
                            0 <= j < i && #[trigger] entry_pid(entries@[j]) == Some(pid);
                        assert(entry_pid(now[j]) == Some(pid));
                    } else if !is_first_of_process(now, i as int) {
                        let j = choose|j: int|
                            0 <= j < i && #[trigger] entry_pid(now[j]) == entry_pid(now[i as int]);
                        assert(entry_pid(entries@[j]) == Some(pid));
                    }
                }
                if fresh {
                    if let Some(name) = &entry.owner_name {
                        if !name.as_str().is_empty() && !is_system_service(name.as_str()) {
                            result.push((pid, name.clone()));
                        }
                    }
                }
            }
        }
        i += 1;
    }
    assert(entries@.take(entries@.len() as int) =~= entries@);
    result
}

/// The places in `names` of the names that `accepts` holds of.
pub open spec fn places(names: Seq<Seq<char>>, accepts: spec_fn(Seq<char>) -> bool) -> Seq<int>
    decreases names.len(),
{
    if names.len() == 0 {
        Seq::empty()
    } else {
        let rest = places(names.drop_last(), accepts);
        if accepts(names.last()) {
            rest.push(names.len() - 1)
        } else {
            rest
        }
    }
}

/// Being the text `wanted`.
pub open spec fn equal_to(wanted: Seq<char>) -> spec_fn(Seq<char>) -> bool {
    |n: Seq<char>| n == wanted
}

/// Beginning with the text `wanted`.
pub open spec fn beginning_with(wanted: Seq<char>) -> spec_fn(Seq<char>) -> bool {
    |n: Seq<char>| has_prefix(n, wanted)
}

/// The places of the names that `wanted` means: those equal to it or, where there
/// are none, those that begin with it.
pub open spec fn places_meant(wanted: Seq<char>, names: Seq<Seq<char>>) -> Seq<int> {
    let equal = places(names, equal_to(wanted));
    if equal.len() > 0 {
        equal
    } else {
        places(names, beginning_with(wanted))
    }
}

/// Places, as the integers they are.
pub open spec fn as_places(v: Seq<usize>) -> Seq<int> {
    v.map_values(|i: usize| i as int)
}

proof fn places_are_in_range(names: Seq<Seq<char>>, accepts: spec_fn(Seq<char>) -> bool)
    ensures
        forall|k: int|
            0 <= k < places(names, accepts).len() ==> 0 <= #[trigger] places(names, accepts)[k]
                < names.len() && accepts(names[places(names, accepts)[k]]),
    decreases names.len(),
{
    if names.len() > 0 {
        let rest = places(names.drop_last(), accepts);
        places_are_in_range(names.drop_last(), accepts);
        assert forall|k: int| 0 <= k < places(names, accepts).len() implies 0
            <= #[trigger] places(names, accepts)[k] < names.len() && accepts(
            names[places(names, accepts)[k]],
        ) by {
            if k < rest.len() {
                assert(places(names, accepts)[k] == rest[k]);
                assert(names[rest[k]] == names.drop_last()[rest[k]]);
            }
        }
    }
}

/// What is meant is there: every place is that of a name, which begins with what
/// was wanted.
pub proof fn places_meant_are_places(wanted: Seq<char>, names: Seq<Seq<char>>)
    ensures
        forall|k: int|
            0 <= k < places_meant(wanted, names).len() ==> {
                let i = #[trigger] places_meant(wanted, names)[k];
                0 <= i < names.len() && has_prefix(names[i], wanted)
            },
{
    places_are_in_range(names, equal_to(wanted));
    places_are_in_range(names, beginning_with(wanted));
    assert forall|k: int| 0 <= k < places_meant(wanted, names).len() implies {
        let i = #[trigger] places_meant(wanted, names)[k];
        0 <= i < names.len() && has_prefix(names[i], wanted)
    } by {
        let equal = places(names, equal_to(wanted));
        let i = places_meant(wanted, names)[k];
        assert(wanted.subrange(0, wanted.len() as int) =~= wanted);
        if equal.len() > 0 {
            assert(i == equal[k]);
        } else {
            assert(i == places(names, beginning_with(wanted))[k]);
        }
    }
}

/// The places of the names that `wanted` means: those equal to it or, where there
/// are none, those that begin with it.
pub fn find_meant(wanted: &str, names: &Vec<String>) -> (r: Vec<usize>)
    ensures
        as_places(r@) == places_meant(wanted@, texts(names@)),
{
    let mut equal: Vec<usize> = Vec::new();
    let mut prefixed: Vec<usize> = Vec::new();
    let mut i: usize = 0;
    while i < names.len()
        invariant
            i <= names.len(),
            as_places(equal@) =~= places(texts(names@).take(i as int), equal_to(wanted@)),
            as_places(prefixed@) =~= places(texts(names@).take(i as int), beginning_with(wanted@)),
        decreases names.len() - i,
    {
        let ghost now = texts(names@).take(i + 1);
        assert(now.drop_last() =~= texts(names@).take(i as int));
        assert(now.last() == names@[i as int]@);
        if same_text(names[i].as_str(), wanted) {
            equal.push(i);
        }
        if starts_with(names[i].as_str(), wanted) {
            prefixed.push(i);
        }
        i += 1;
    }
    assert(texts(names@).take(names@.len() as int) =~= texts(names@));
    assert(as_places(equal@).len() == equal@.len());
    if equal.len() > 0 {
        equal
    } else {
        prefixed
    }
}

/// The names of the applications in lower case.
pub open spec fn lowered(apps: Seq<(i32, Seq<char>)>) -> Seq<Seq<char>> {
    apps.map_values(|a: (i32, Seq<char>)| lowercase(a.1))
}

/// The names of the applications in lower case.
pub fn lowered_names(apps: &Vec<(i32, String)>) -> (r: Vec<String>)
    ensures
        texts(r@) == lowered(listed(apps@)),
{
    let mut names: Vec<String> = Vec::new();
    let mut i: usize = 0;
    while i < apps.len()
        invariant
            i <= apps.len(),
            names@.len() == i,
            texts(names@) =~= lowered(listed(apps@)).take(i as int),
        decreases apps.len() - i,
    {
        names.push(to_lowercase(apps[i].1.as_str()));
        assert(listed(apps@)[i as int].1 == apps@[i as int].1@);
        assert(lowered(listed(apps@))[i as int] == names@[i as int]@);
        i += 1;
    }
    names
}

/// The name of the first application that is process `pid`, or else `otherwise`.
pub open spec fn name_of_process(
    pid: i32,
    apps: Seq<(i32, Seq<char>)>,
    otherwise: Seq<char>,
) -> Seq<char>
    decreases apps.len(),
{
    if apps.len() == 0 {
        otherwise
    } else if apps[0].0 == pid {
        apps[0].1
    } else {
        name_of_process(pid, apps.skip(1), otherwise)
    }
}

fn process_name(pid: i32, apps: &Vec<(i32, String)>, otherwise: &str) -> (r: String)
    ensures
        r@ == name_of_process(pid, listed(apps@), otherwise@),
{
    let mut i: usize = 0;
    assert(listed(apps@).skip(0) =~= listed(apps@));
    while i < apps.len()
        invariant
            i <= apps.len(),
            name_of_process(pid, listed(apps@), otherwise@) == name_of_process(
                pid,
                listed(apps@).skip(i as int),
                otherwise@,
            ),
        decreases apps.len() - i,
    {
        assert(listed(apps@).skip(i as int)[0] == (apps@[i as int].0, apps@[i as int].1@));
        if apps[i].0 == pid {
            return apps[i].1.clone();
        }
        assert(listed(apps@).skip(i as int).skip(1) =~= listed(apps@).skip(i + 1));
        i += 1;
    }
    otherwise.to_owned()
}

/// The application at a place.
pub open spec fn app_at(apps: Seq<(i32, Seq<char>)>) -> spec_fn(int) -> (i32, Seq<char>) {
    |i: int| apps[i]
}

/// The applications that `app_name` means among the running ones. A process target
/// means that process, whether it is listed or not; a name means the applications
/// of that name or, where there are none, those whose names begin with it, without
/// regard to case.
pub open spec fn apps_meant(app_name: Seq<char>, apps: Seq<(i32, Seq<char>)>) -> Seq<
    (i32, Seq<char>),
> {
    match pid_target(app_name) {
        Some(pid) => seq![(pid, name_of_process(pid, apps, app_name))],
        None => places_meant(lowercase(app_name), lowered(apps)).map_values(app_at(apps)),
    }
}

/// The applications that `app_name` means among the running ones, where there are any.
pub fn find_app_pids(app_name: &str, apps: &Vec<(i32, String)>) -> (r: Result<
    Vec<(i32, String)>,
    Error,
>)
    ensures
        match r {
            Ok(found) => {
                &&& listed(found@) == apps_meant(app_name@, listed(apps@))
                &&& found@.len() > 0
            },
            Err(e) => {
                &&& apps_meant(app_name@, listed(apps@)).len() == 0
                &&& e@ == (ErrorView::ApplicationNotFound { name: app_name@ })
            },
        },
{
    if let Some(pid) = parse_pid_target(app_name) {
        let name = process_name(pid, apps, app_name);
        let mut found: Vec<(i32, String)> = Vec::new();
        found.push((pid, name));
        assert(listed(found@) =~= apps_meant(app_name@, listed(apps@)));
        return Ok(found);
    }
    let wanted = to_lowercase(app_name);
    let names = lowered_names(apps);
    let places = find_meant(wanted.as_str(), &names);
    let ghost meant = places_meant(lowercase(app_name@), lowered(listed(apps@)));
    assert(as_places(places@).len() == places@.len());
    if places.len() == 0 {
        return Err(Error::ApplicationNotFound { name: app_name.to_owned() });
    }
    proof {
        places_meant_are_places(lowercase(app_name@), lowered(listed(apps@)));
    }
    let mut found: Vec<(i32, String)> = Vec::new();
    let mut k: usize = 0;
    while k < places.len()
        invariant
            k <= places.len(),
            found@.len() == k,
            as_places(places@) == meant,
            meant.len() == places@.len(),
            forall|j: int| 0 <= j < meant.len() ==> 0 <= #[trigger] meant[j] < apps@.len(),
            listed(found@) =~= meant.take(k as int).map_values(app_at(listed(apps@))),
        decreases places.len() - k,
    {
        assert(as_places(places@)[k as int] == places@[k as int]);
        let app = &apps[places[k]];
        found.push((app.0, app.1.clone()));
        proof {
            let at = app_at(listed(apps@));
            assert(at(meant[k as int]) == (app.0, app.1@));
            assert(meant.take(k + 1).map_values(at) =~= meant.take(k as int).map_values(at).push(
                (app.0, app.1@),
            ));
        }
        k += 1;
    }
    assert(meant.take(meant.len() as int) =~= meant);
    Ok(found)
}

/// The processes that are no applications are these, and no others.
pub proof fn system_services_are_these(name: Seq<char>)
    ensures
        system_service_names().contains(name) <==> (
            name == "Accessibility"@
            || name == "AutoFill"@
            || name == "Control Centre"@
            || name == "Control Centre Helper"@
            || name == "ControlCenter"@
            || name == "CursorUIViewService"@
            || name == "Dock"@
            || name == "Notification Centre"@
            || name == "NotificationCenter"@
            || name == "ScreenCaptureKit"@
            || name == "Spotlight"@
            || name == "ThemeWidgetControlViewService"@
            || name == "Universal Control"@
            || name == "Wallpaper"@
            || name == "Window Server"@
            || name == "WindowManager"@
            || name == "coreautha"@
            || name == "loginwindow"@
        ),
{
    let all = system_service_names();
    assert(all[0] == "Accessibility"@);
    assert(all[1] == "AutoFill"@);
    assert(all[2] == "Control Centre"@);
    assert(all[3] == "Control Centre Helper"@);
    assert(all[4] == "ControlCenter"@);
    assert(all[5] == "CursorUIViewService"@);
    assert(all[6] == "Dock"@);
    assert(all[7] == "Notification Centre"@);
    assert(all[8] == "NotificationCenter"@);
    assert(all[9] == "ScreenCaptureKit"@);
    assert(all[10] == "Spotlight"@);
    assert(all[11] == "ThemeWidgetControlViewService"@);
    assert(all[12] == "Universal Control"@);
    assert(all[13] == "Wallpaper"@);
    assert(all[14] == "Window Server"@);
    assert(all[15] == "WindowManager"@);
    assert(all[16] == "coreautha"@);
    assert(all[17] == "loginwindow"@);
}

/// Whether places come one after the other.
pub open spec fn ascends(places: Seq<int>) -> bool {
    forall|i: int, j: int| 0 <= i < j < places.len() ==> #[trigger] places[i] < #[trigger] places[j]
}

/// Adding a place behind all the others.
pub proof fn one_place_more(places: Seq<int>, n: int)
    requires
        ascends(places),
        forall|k: int| 0 <= k < places.len() ==> #[trigger] places[k] < n,
    ensures
        ascends(places.push(n)),
        forall|i: int| #[trigger] places.push(n).contains(i) <==> places.contains(i) || i == n,
{
    let all = places.push(n);
    assert forall|i: int| #[trigger] all.contains(i) <==> places.contains(i) || i == n by {
        if places.contains(i) {
            let k = choose|k: int| 0 <= k < places.len() && places[k] == i;
            assert(all[k] == i);
        }
        if i == n {
            assert(all[places.len() as int] == i);
        }
        if all.contains(i) && i != n {
            let k = choose|k: int| 0 <= k < all.len() && all[k] == i;
            assert(places[k] == i);
        }
    }
}

/// The applications are the named owners of windows: exactly those processes are listed
/// whose first entry in the window list has a name that is not empty and is that of no
/// system service, each under the name of that entry and in the order of those entries.
/// An entry counts for a process only if the process number was read without loss and is
/// positive.
///
/// The places of those entries in the window list are returned.
pub proof fn named_owners_are_listed(entries: Seq<WindowEntry>) -> (at: Seq<int>)
    ensures
        ascends(at),
        at.len() == applications_of(entries).len(),
        forall|k: int|
            0 <= k < at.len() ==> 0 <= #[trigger] at[k] < entries.len()
                && applications_of(entries)[k] == (
                entries[at[k]].owner_pid->0.value as i32,
                entries[at[k]].owner_name->0@,
            ),
        forall|i: int|
            0 <= i < entries.len() ==> (#[trigger] at.contains(i) <==> {
                let name = entries[i].owner_name->0@;
                &&& entries[i].owner_pid is Some
                &&& entries[i].owner_pid->0.exact
                &&& entries[i].owner_pid->0.value > 0
                &&& forall|j: int|
                    0 <= j < i && (#[trigger] entries[j]).owner_pid is Some
                        && entries[j].owner_pid->0.exact && entries[j].owner_pid->0.value > 0
                        ==> entries[j].owner_pid->0.value as i32
                        != entries[i].owner_pid->0.value as i32
                &&& entries[i].owner_name is Some
                &&& name.len() > 0
                &&& name != "Accessibility"@
                &&& name != "AutoFill"@
                &&& name != "Control Centre"@
                &&& name != "Control Centre Helper"@
                &&& name != "ControlCenter"@
                &&& name != "CursorUIViewService"@
                &&& name != "Dock"@
                &&& name != "Notification Centre"@
                &&& name != "NotificationCenter"@
                &&& name != "ScreenCaptureKit"@
                &&& name != "Spotlight"@
                &&& name != "ThemeWidgetControlViewService"@
                &&& name != "Universal Control"@
                &&& name != "Wallpaper"@
                &&& name != "Window Server"@
                &&& name != "WindowManager"@
                &&& name != "coreautha"@
                &&& name != "loginwindow"@
            }),
{
    let at = listed_entries(entries);
    assert forall|i: int| 0 <= i < entries.len() implies (#[trigger] at.contains(i)
        <==> is_first_of_process(entries, i) && names_application(entries[i])) by {}
    assert forall|i: int| 0 <= i < entries.len() && is_first_of_process(entries, i) implies (
    forall|j: int|
        0 <= j < i && (#[trigger] entries[j]).owner_pid is Some && entries[j].owner_pid->0.exact
            && entries[j].owner_pid->0.value > 0 ==> entries[j].owner_pid->0.value as i32
            != entries[i].owner_pid->0.value as i32) by {
        assert forall|j: int|
            0 <= j < i && (#[trigger] entries[j]).owner_pid is Some
                && entries[j].owner_pid->0.exact && entries[j].owner_pid->0.value
                > 0 implies entries[j].owner_pid->0.value as i32
            != entries[i].owner_pid->0.value as i32 by {
            assert(entry_pid(entries[j]) != entry_pid(entries[i]));
        }
    }
    assert forall|name: Seq<char>| #[trigger] system_service_names().contains(name) <==> (
            name == "Accessibility"@
            || name == "AutoFill"@
            || name == "Control Centre"@
            || name == "Control Centre Helper"@
            || name == "ControlCenter"@
            || name == "CursorUIViewService"@
            || name == "Dock"@
            || name == "Notification Centre"@
            || name == "NotificationCenter"@
            || name == "ScreenCaptureKit"@
            || name == "Spotlight"@
            || name == "ThemeWidgetControlViewService"@
            || name == "Universal Control"@
            || name == "Wallpaper"@
            || name == "Window Server"@
            || name == "WindowManager"@
            || name == "coreautha"@
            || name == "loginwindow"@
    ) by {
        system_services_are_these(name);
    }
    at
}

proof fn listed_entries(entries: Seq<WindowEntry>) -> (at: Seq<int>)
    ensures
        ascends(at),
        at.len() == applications_of(entries).len(),
        forall|k: int|
            0 <= k < at.len() ==> 0 <= #[trigger] at[k] < entries.len()
                && applications_of(entries)[k] == (
                entries[at[k]].owner_pid->0.value as i32,
                entries[at[k]].owner_name->0@,
            ),
        forall|i: int|
            0 <= i < entries.len() ==> (#[trigger] at.contains(i) <==> is_first_of_process(
                entries,
                i,
            ) && names_application(entries[i])),
    decreases entries.len(),
{
    if entries.len() == 0 {
        Seq::empty()
    } else {
        let before = entries.drop_last();
        let n = entries.len() - 1;
        let rest = listed_entries(before);
        one_place_more(rest, n);
        assert(!rest.contains(n));
        let at = if is_first_of_process(entries, n) && names_application(entries[n]) {
            rest.push(n)
        } else {
            rest
        };
        assert forall|k: int| 0 <= k < at.len() implies 0 <= #[trigger] at[k] < entries.len()
            && applications_of(entries)[k] == (
            entries[at[k]].owner_pid->0.value as i32,
            entries[at[k]].owner_name->0@,
        ) by {
            if k < rest.len() {
                assert(at[k] == rest[k]);
                assert(before[rest[k]] == entries[rest[k]]);
            }
        }
        assert forall|i: int| 0 <= i < entries.len() implies (#[trigger] at.contains(i)
            <==> is_first_of_process(entries, i) && names_application(entries[i])) by {
            if i < n {
                assert(before[i] == entries[i]);
                assert(is_first_of_process(before, i) <==> is_first_of_process(entries, i)) by {
                    assert forall|j: int| 0 <= j < i implies #[trigger] before[j]
                        == entries[j] by {}
                    if is_first_of_process(before, i) {
                        assert forall|j: int| 0 <= j < i implies #[trigger] entry_pid(entries[j])
                            != entry_pid(entries[i]) by {
                            assert(entry_pid(before[j]) != entry_pid(before[i]));
                        }
                    }
                    if is_first_of_process(entries, i) {
                        assert forall|j: int| 0 <= j < i implies #[trigger] entry_pid(before[j])
                            != entry_pid(before[i]) by {
                            assert(entry_pid(entries[j]) != entry_pid(entries[i]));
                        }
                    }
                }
            }
        }
        at
    }
}

proof fn places_are_all(names: Seq<Seq<char>>, accepts: spec_fn(Seq<char>) -> bool)
    ensures
        ascends(places(names, accepts)),
        forall|i: int| #[trigger]
            places(names, accepts).contains(i) <==> 0 <= i < names.len() && accepts(names[i]),
    decreases names.len(),
{
    if names.len() > 0 {
        let before = names.drop_last();
        let rest = places(before, accepts);
        let n = names.len() - 1;
        places_are_all(before, accepts);
        places_are_in_range(before, accepts);
        one_place_more(rest, n);
        assert forall|i: int| #[trigger] places(names, accepts).contains(i) <==> 0 <= i
            < names.len() && accepts(names[i]) by {
            if 0 <= i < n {
                assert(before[i] == names[i]);
            }
            assert(rest.contains(i) <==> 0 <= i < n && accepts(before[i]));
        }
    }
}

/// What is meant by a text are all the names that are that text, and if there are none
/// all that begin with it, in their order.
pub proof fn all_names_meant_are_found(wanted: Seq<char>, names: Seq<Seq<char>>)
    ensures
        ascends(places_meant(wanted, names)),
        forall|i: int| #[trigger]
            places_meant(wanted, names).contains(i) <==> {
                &&& 0 <= i < names.len()
                &&& names[i] == wanted || {
                    &&& forall|j: int| 0 <= j < names.len() ==> #[trigger] names[j] != wanted
                    &&& wanted.len() <= names[i].len()
                    &&& names[i].take(wanted.len() as int) == wanted
                }
            },
{
    let equal = places(names, equal_to(wanted));
    places_are_all(names, equal_to(wanted));
    places_are_all(names, beginning_with(wanted));
    if equal.len() > 0 {
        assert(equal.contains(equal[0]));
        assert(names[equal[0]] == wanted);
    }
    assert forall|j: int| 0 <= j < names.len() && equal.len() == 0 implies #[trigger] names[j]
        != wanted by {
        assert(!equal.contains(j));
    }
    assert forall|i: int| #[trigger] places_meant(wanted, names).contains(i) <==> {
        &&& 0 <= i < names.len()
        &&& names[i] == wanted || {
            &&& forall|j: int| 0 <= j < names.len() ==> #[trigger] names[j] != wanted
            &&& wanted.len() <= names[i].len()
            &&& names[i].take(wanted.len() as int) == wanted
        }
    } by {
        if equal.len() == 0 {
            let prefixed = places(names, beginning_with(wanted));
            assert(prefixed.contains(i) <==> 0 <= i < names.len() && has_prefix(names[i], wanted));
        } else {
            assert(equal.contains(i) <==> 0 <= i < names.len() && names[i] == wanted);
        }
    }
}

/// The applications that a name means are all those of that name, or all those whose
/// names begin with it if none has that name, in the order of the list; upper and lower
/// case do not differ.
///
/// Their places in the list are returned.
pub proof fn all_apps_meant_are_found(app_name: Seq<char>, apps: Seq<(i32, Seq<char>)>) -> (at:
    Seq<int>)
    requires
        pid_target(app_name) is None,
    ensures
        ascends(at),
        at.len() == apps_meant(app_name, apps).len(),
        forall|k: int|
            0 <= k < at.len() ==> 0 <= #[trigger] at[k] < apps.len() && apps_meant(
                app_name,
                apps,
            )[k] == apps[at[k]],
        forall|i: int| #[trigger]
            at.contains(i) <==> {
                let wanted = lowercase(app_name);
                &&& 0 <= i < apps.len()
                &&& lowercase(apps[i].1) == wanted || {
                    &&& forall|j: int|
                        0 <= j < apps.len() ==> lowercase((#[trigger] apps[j]).1) != wanted
                    &&& wanted.len() <= lowercase(apps[i].1).len()
                    &&& lowercase(apps[i].1).take(wanted.len() as int) == wanted
                }
            },
{
    let wanted = lowercase(app_name);
    let names = lowered(apps);
    let at = places_meant(wanted, names);
    all_names_meant_are_found(wanted, names);
    assert forall|i: int| 0 <= i < apps.len() implies #[trigger] names[i] == lowercase(
        apps[i].1,
    ) by {}
    assert forall|k: int| 0 <= k < at.len() implies 0 <= #[trigger] at[k] < apps.len()
        && apps_meant(app_name, apps)[k] == apps[at[k]] by {
        assert(at.contains(at[k]));
    }
    assert forall|i: int| #[trigger] at.contains(i) <==> {
        &&& 0 <= i < apps.len()
        &&& lowercase(apps[i].1) == wanted || {
            &&& forall|j: int| 0 <= j < apps.len() ==> lowercase((#[trigger] apps[j]).1) != wanted
            &&& wanted.len() <= lowercase(apps[i].1).len()
            &&& lowercase(apps[i].1).take(wanted.len() as int) == wanted
        }
    } by {
        if forall|j: int| 0 <= j < names.len() ==> #[trigger] names[j] != wanted {
            assert forall|j: int| 0 <= j < apps.len() implies lowercase((#[trigger] apps[j]).1)
                != wanted by {
                assert(names[j] != wanted);
            }
        }
        if forall|j: int| 0 <= j < apps.len() ==> lowercase((#[trigger] apps[j]).1) != wanted {
            assert forall|j: int| 0 <= j < names.len() implies #[trigger] names[j] != wanted by {
                assert(lowercase(apps[j].1) != wanted);
            }
        }
    }
    at
}

/// A process named outright is found alone: under the name that it is first listed under
/// or, where it is not listed, under the name that was asked for.
pub proof fn a_process_target_is_found_alone(
    app_name: Seq<char>,
    apps: Seq<(i32, Seq<char>)>,
    i: int,
)
    requires
        pid_target(app_name) is Some,
    ensures
        0 <= i < apps.len() && apps[i].0 == pid_target(app_name)->0 && (forall|j: int|
            0 <= j < i ==> (#[trigger] apps[j]).0 != pid_target(app_name)->0) ==> apps_meant(
            app_name,
            apps,
        ) == seq![(pid_target(app_name)->0, apps[i].1)],
        (forall|j: int| 0 <= j < apps.len() ==> (#[trigger] apps[j]).0 != pid_target(app_name)->0)
            ==> apps_meant(app_name, apps) == seq![(pid_target(app_name)->0, app_name)],
{
    let pid = pid_target(app_name)->0;
    if 0 <= i < apps.len() && apps[i].0 == pid && (forall|j: int|
        0 <= j < i ==> (#[trigger] apps[j]).0 != pid) {
        first_name_counts(pid, apps, app_name, i);
    }
    if forall|j: int| 0 <= j < apps.len() ==> (#[trigger] apps[j]).0 != pid {
        no_name_counts(pid, apps, app_name);
    }
}

proof fn first_name_counts(
    pid: i32,
    apps: Seq<(i32, Seq<char>)>,
    otherwise: Seq<char>,
    i: int,
)
    requires
        0 <= i < apps.len(),
        apps[i].0 == pid,
        forall|j: int| 0 <= j < i ==> (#[trigger] apps[j]).0 != pid,
    ensures
        name_of_process(pid, apps, otherwise) == apps[i].1,
    decreases apps.len(),
{
    if i > 0 {
        let rest = apps.skip(1);
        assert forall|j: int| 0 <= j < i - 1 implies (#[trigger] rest[j]).0 != pid by {
            assert(apps[j + 1].0 != pid);
        }
        assert(apps[0].0 != pid);
        first_name_counts(pid, rest, otherwise, i - 1);
    }
}

proof fn no_name_counts(pid: i32, apps: Seq<(i32, Seq<char>)>, otherwise: Seq<char>)
    requires
        forall|j: int| 0 <= j < apps.len() ==> (#[trigger] apps[j]).0 != pid,
    ensures
        name_of_process(pid, apps, otherwise) == otherwise,
    decreases apps.len(),
{
    if apps.len() > 0 {
        let rest = apps.skip(1);
        assert forall|j: int| 0 <= j < rest.len() implies (#[trigger] rest[j]).0 != pid by {
            assert(apps[j + 1].0 != pid);
        }
        assert(apps[0].0 != pid);
        no_name_counts(pid, rest, otherwise);
    }
}

/// A list of applications shows all of them, in their order, with their own processes and
/// names, and in lower case the same names.
pub proof fn every_application_is_shown(apps: Seq<(i32, String)>, i: int)
    requires
        0 <= i < apps.len(),
    ensures
        listed(apps).len() == apps.len(),
        listed(apps)[i] == (apps[i].0, apps[i].1@),
        lowered(listed(apps)).len() == apps.len(),
        lowered(listed(apps))[i] == lowercase(apps[i].1@),
{
}

} // verus!
