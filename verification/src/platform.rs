//! The platform: the processes that application names were last found to mean.

use vstd::hash_map::StringHashMap;
use vstd::prelude::*;

use crate::action::Selector;
use crate::apps::{find_meant, lowered_names, running_apps_native, WindowEntry};
#[allow(unused_imports)]
use crate::apps::{applications_of, apps_meant, equal_to, listed, lowered, places, places_meant};
#[allow(unused_imports)]
use crate::apps::{all_names_meant_are_found, as_places, places_meant_are_places};
use crate::error::Error;
#[allow(unused_imports)]
use crate::error::ErrorView;
use crate::pid::parse_pid_target;
#[allow(unused_imports)]
use crate::pid::pid_target;
use crate::text::to_lowercase;
#[allow(unused_imports)]
use crate::text::{lowercase, texts};
#[allow(unused_imports)]
use crate::touch::touch_begin;
use crate::touch::{Task, Touch};

verus! {

/// How long a process found for a name is taken for granted, in nanoseconds.
pub const PID_CACHE_TTL: u64 = 30_000_000_000;

/// A process found for a name, and the time from which on it no longer counts.
#[derive(Clone, Copy, Debug, PartialEq, Eq, Structural)]
pub struct PidEntry {
    pub pid: i32,
    pub expires: u128,
}

/// The platform, with the processes it has found for names in lower case.
///
/// Times are nanoseconds on one clock that does not go back.
pub struct MacOSPlatform {
    pid_cache: StringHashMap<PidEntry>,
}

impl View for MacOSPlatform {
    type V = Map<Seq<char>, PidEntry>;

    closed spec fn view(&self) -> Map<Seq<char>, PidEntry> {
        self.pid_cache@
    }
}

/// The process that is taken for granted for a name in lower case.
pub open spec fn cached(cache: Map<Seq<char>, PidEntry>, key: Seq<char>, now: u64) -> Option<i32> {
    if cache.contains_key(key) && cache[key].expires > now {
        Some(cache[key].pid)
    } else {
        None
    }
}

/// The process that a name is known to mean without looking: the one it names
/// outright, or else the one that is taken for granted.
pub open spec fn known_pid(
    cache: Map<Seq<char>, PidEntry>,
    app_name: Seq<char>,
    now: u64,
) -> Option<i32> {
    match pid_target(app_name) {
        Some(pid) => Some(pid),
        None => cached(cache, lowercase(app_name), now),
    }
}

/// What is remembered once the applications have been listed: for each name the
/// process last listed under it, and what was remembered of other names.
pub open spec fn remembered(
    cache: Map<Seq<char>, PidEntry>,
    names: Seq<Seq<char>>,
    pids: Seq<i32>,
    expires: u128,
) -> Map<Seq<char>, PidEntry>
    decreases names.len(),
{
    if names.len() == 0 {
        cache
    } else {
        remembered(cache, names.drop_last(), pids, expires).insert(
            names.last(),
            PidEntry { pid: pids[names.len() - 1], expires },
        )
    }
}

/// The processes of the applications.
pub open spec fn pids_of(apps: Seq<(i32, Seq<char>)>) -> Seq<i32> {
    apps.map_values(|a: (i32, Seq<char>)| a.0)
}

/// The time up to which applications listed at a time are remembered.
pub open spec fn expiry(listed_at: u64) -> u128 {
    (listed_at + PID_CACHE_TTL) as u128
}

/// The process that a name means among the applications listed: the first of that name
/// or, where there is none, the first whose name begins with it, without regard to case.
pub open spec fn listed_pid(app_name: Seq<char>, apps: Seq<(i32, Seq<char>)>) -> Option<i32> {
    let meant = places_meant(lowercase(app_name), lowered(apps));
    if meant.len() > 0 {
        Some(apps[meant[0]].0)
    } else {
        None
    }
}

/// The process that a name means: the one it is known to mean or else, where the
/// applications are listed, the one among them.
pub open spec fn lookup(
    cache: Map<Seq<char>, PidEntry>,
    app_name: Seq<char>,
    apps: Seq<(i32, Seq<char>)>,
    now: u64,
) -> Option<i32> {
    match known_pid(cache, app_name, now) {
        Some(pid) => Some(pid),
        None => listed_pid(app_name, apps),
    }
}

/// What is remembered once a name was looked up: all the applications listed, where the
/// listing was needed and settled it, and otherwise what was remembered before.
pub open spec fn cache_after(
    cache: Map<Seq<char>, PidEntry>,
    app_name: Seq<char>,
    apps: Seq<(i32, Seq<char>)>,
    now: u64,
    listed_at: u64,
) -> Map<Seq<char>, PidEntry> {
    if known_pid(cache, app_name, now) is None && listed_pid(app_name, apps) is Some {
        remembered(cache, lowered(apps), pids_of(apps), expiry(listed_at))
    } else {
        cache
    }
}

impl MacOSPlatform {
    /// A platform that knows of no process yet.
    pub fn new() -> (r: Self)
        ensures
            r@ == Map::<Seq<char>, PidEntry>::empty(),
    {
        Self { pid_cache: StringHashMap::new() }
    }

    /// The name of the platform.
    pub fn platform_name(&self) -> (r: &'static str)
        ensures
            r@ == "macOS"@,
    {
        "macOS"
    }

    /// The running applications, by the window list.
    pub fn running_apps(&self, entries: &Vec<WindowEntry>) -> (r: Vec<(i32, String)>)
        ensures
            listed(r@) == applications_of(entries@),
    {
        running_apps_native(entries)
    }

    /// The process that is taken for granted for a name in lower case.
    pub fn cached_pid(&self, key: &str, now: u64) -> (r: Option<i32>)
        ensures
            r == cached(self@, key@, now),
    {
        if let Some(entry) = self.pid_cache.get(key) {
            if entry.expires > now as u128 {
                return Some(entry.pid);
            }
        }
        None
    }

    /// The process that `app_name` is known to mean. Where there is none, the running
    /// applications have to be listed, for `find_listed_pid`.
    pub fn find_app_pid(&self, app_name: &str, now: u64) -> (r: Option<i32>)
        ensures
            r == known_pid(self@, app_name@, now),
    {
        if let Some(pid) = parse_pid_target(app_name) {
            return Some(pid);
        }
        let lower = to_lowercase(app_name);
        self.cached_pid(lower.as_str(), now)
    }

    /// Remembers the processes of the applications, whose names in lower case are
    /// `names`, up to the time `expires`.
    pub fn remember(&mut self, names: &Vec<String>, apps: &Vec<(i32, String)>, expires: u128)
        requires
            names.len() == apps.len(),
        ensures
            final(self)@ == remembered(
                old(self)@,
                texts(names@),
                pids_of(listed(apps@)),
                expires,
            ),
    {
        let mut i: usize = 0;
        assert(texts(names@).take(0) =~= Seq::<Seq<char>>::empty());
        while i < names.len()
            invariant
                i <= names.len(),
                names.len() == apps.len(),
                self@ == remembered(
                    old(self)@,
                    texts(names@).take(i as int),
                    pids_of(listed(apps@)),
                    expires,
                ),
            decreases names.len() - i,
        {
            assert(texts(names@).take(i + 1).drop_last() =~= texts(names@).take(i as int));
            assert(texts(names@).take(i + 1).last() == names@[i as int]@);
            assert(pids_of(listed(apps@))[i as int] == apps@[i as int].0);
            self.pid_cache.insert(names[i].clone(), PidEntry { pid: apps[i].0, expires });
            i += 1;
        }
        assert(texts(names@).take(names@.len() as int) =~= texts(names@));
    }

    /// The process that `app_name` means among the running applications, listed at the
    /// time `now`. Where there is one, all the applications are remembered.
    pub fn find_listed_pid(
        &mut self,
        app_name: &str,
        apps: &Vec<(i32, String)>,
        now: u64,
    ) -> (r: Result<i32, Error>)
        ensures
            match listed_pid(app_name@, listed(apps@)) {
                Some(pid) => {
                    &&& r == Ok::<i32, Error>(pid)
                    &&& final(self)@ == remembered(
                        old(self)@,
                        lowered(listed(apps@)),
                        pids_of(listed(apps@)),
                        expiry(now),
                    )
                },
                None => {
                    &&& r is Err
                    &&& r->Err_0@ == (ErrorView::ApplicationNotFound { name: app_name@ })
                    &&& final(self)@ == old(self)@
                },
            },
    {
        let lower = to_lowercase(app_name);
        let names = lowered_names(apps);
        let places = find_meant(lower.as_str(), &names);
        let ghost meant = places_meant(lowercase(app_name@), lowered(listed(apps@)));
        assert(as_places(places@).len() == places@.len());
        if places.len() == 0 {
            return Err(Error::ApplicationNotFound { name: app_name.to_owned() });
        }
        proof {
            places_meant_are_places(lowercase(app_name@), lowered(listed(apps@)));
            assert(meant[0] == as_places(places@)[0]);
            assert(texts(names@).len() == names@.len());
        }
        let found = apps[places[0]].0;
        self.remember(&names, apps, now as u128 + PID_CACHE_TTL as u128);
        Ok(found)
    }

    /// The process that `app_name` means, looked up at the time `now`: what is known of
    /// the name goes before `apps`, the running applications listed at the time
    /// `listed_at`.
    pub fn settle_app_pid(
        &mut self,
        app_name: &str,
        apps: &Vec<(i32, String)>,
        now: u64,
        listed_at: u64,
    ) -> (r: Result<i32, Error>)
        ensures
            match lookup(old(self)@, app_name@, listed(apps@), now) {
                Some(pid) => r == Ok::<i32, Error>(pid),
                None => r is Err && r->Err_0@ == (ErrorView::ApplicationNotFound {
                    name: app_name@,
                }),
            },
            final(self)@ == cache_after(old(self)@, app_name@, listed(apps@), now, listed_at),
    {
        match self.find_app_pid(app_name, now) {
            Some(pid) => Ok(pid),
            None => self.find_listed_pid(app_name, apps, listed_at),
        }
    }

    /// Begins to press an element, in the application that the selector names or
    /// anywhere. Once that is over, `Touch::pressed` says whether it was pressed.
    pub fn ax_press<'a>(&self, selector: &'a Selector) -> (r: Touch<'a>)
        ensures
            r == touch_begin(selector, Task::Press),
    {
        Touch::start(selector, Task::Press)
    }
}

impl Default for MacOSPlatform {
    fn default() -> (r: Self)
        ensures
            r@ == Map::<Seq<char>, PidEntry>::empty(),
    {
        Self::new()
    }
}

/// What is remembered of a name is the process listed last under it.
pub proof fn last_listed_is_remembered(
    cache: Map<Seq<char>, PidEntry>,
    names: Seq<Seq<char>>,
    pids: Seq<i32>,
    expires: u128,
    i: int,
)
    requires
        0 <= i < names.len(),
        forall|j: int| i < j < names.len() ==> names[j] != names[i],
    ensures
        remembered(cache, names, pids, expires).contains_key(names[i]),
        remembered(cache, names, pids, expires)[names[i]] == (PidEntry { pid: pids[i], expires }),
    decreases names.len(),
{
    if i < names.len() - 1 {
        let rest = names.drop_last();
        assert forall|j: int| i < j < rest.len() implies rest[j] != rest[i] by {
            assert(names[j] != names[i]);
        }
        last_listed_is_remembered(cache, rest, pids, expires, i);
        assert(names[names.len() - 1] != names[i]);
    }
}

/// What is remembered of a name that is not listed stays as it was.
pub proof fn unlisted_is_kept(
    cache: Map<Seq<char>, PidEntry>,
    names: Seq<Seq<char>>,
    pids: Seq<i32>,
    expires: u128,
    key: Seq<char>,
)
    requires
        !names.contains(key),
    ensures
        remembered(cache, names, pids, expires).contains_key(key) == cache.contains_key(key),
        cache.contains_key(key) ==> remembered(cache, names, pids, expires)[key] == cache[key],
    decreases names.len(),
{
    if names.len() > 0 {
        let rest = names.drop_last();
        assert(!rest.contains(key)) by {
            if rest.contains(key) {
                let j = choose|j: int| 0 <= j < rest.len() && rest[j] == key;
                assert(names[j] == key);
            }
        }
        assert(names[names.len() - 1] != key);
        unlisted_is_kept(cache, rest, pids, expires, key);
    }
}

/// A name is looked up once: as long as the answer counts, asking again, in upper or
/// lower case and whatever runs by then, gives the application of that name without
/// listing anything and changes nothing. From the time it expires on, only the new list
/// counts.
///
/// `first` and `last` are the first and the last application of that name. The first is
/// found but the last is remembered; where one application only has the name, they are
/// the same.
pub proof fn lookup_is_remembered(
    cache: Map<Seq<char>, PidEntry>,
    app_name: Seq<char>,
    apps: Seq<(i32, Seq<char>)>,
    now: u64,
    listed_at: u64,
    first: int,
    last: int,
    again: Seq<char>,
    later_apps: Seq<(i32, Seq<char>)>,
    later: u64,
    later_listed_at: u64,
)
    requires
        pid_target(app_name) is None,
        pid_target(again) is None,
        lowercase(again) == lowercase(app_name),
        known_pid(cache, app_name, now) is None,
        0 <= first <= last < apps.len(),
        lowercase(apps[first].1) == lowercase(app_name),
        lowercase(apps[last].1) == lowercase(app_name),
        forall|k: int|
            0 <= k < first || last < k < apps.len() ==> lowercase((#[trigger] apps[k]).1)
                != lowercase(app_name),
    ensures
        ({
            let then = cache_after(cache, app_name, apps, now, listed_at);
            &&& lookup(cache, app_name, apps, now) == Some(apps[first].0)
            &&& later < listed_at + PID_CACHE_TTL ==> {
                &&& known_pid(then, again, later) == Some(apps[last].0)
                &&& lookup(then, again, later_apps, later) == Some(apps[last].0)
                &&& cache_after(then, again, later_apps, later, later_listed_at) == then
            }
            &&& later >= listed_at + PID_CACHE_TTL ==> {
                &&& known_pid(then, again, later) is None
                &&& lookup(then, again, later_apps, later) == listed_pid(again, later_apps)
                &&& later_apps.len() == 0 ==> lookup(then, again, later_apps, later) is None
            }
        }),
{
    let names = lowered(apps);
    let wanted = lowercase(app_name);
    assert forall|k: int| 0 <= k < first implies names[k] != wanted by {
        assert(lowercase(apps[k].1) != wanted);
    }
    assert forall|k: int| last < k < names.len() implies names[k] != names[last] by {
        assert(lowercase(apps[k].1) != wanted);
    }
    first_place(names, wanted, first);
    last_listed_is_remembered(cache, names, pids_of(apps), expiry(listed_at), last);
}

proof fn first_place(names: Seq<Seq<char>>, wanted: Seq<char>, i: int)
    requires
        0 <= i < names.len(),
        names[i] == wanted,
        forall|j: int| 0 <= j < i ==> names[j] != wanted,
    ensures
        places(names, equal_to(wanted)).len() > 0,
        places(names, equal_to(wanted))[0] == i,
    decreases names.len(),
{
    let rest = names.drop_last();
    assert forall|j: int| 0 <= j < i implies rest[j] != wanted by {
        assert(names[j] != wanted);
    }
    if i < names.len() - 1 {
        first_place(rest, wanted, i);
    } else {
        no_place(rest, wanted);
    }
}

proof fn no_place(names: Seq<Seq<char>>, wanted: Seq<char>)
    requires
        forall|j: int| 0 <= j < names.len() ==> names[j] != wanted,
    ensures
        places(names, equal_to(wanted)).len() == 0,
    decreases names.len(),
{
    if names.len() > 0 {
        let rest = names.drop_last();
        assert forall|j: int| 0 <= j < rest.len() implies rest[j] != wanted by {
            assert(names[j] != wanted);
        }
        assert(names[names.len() - 1] != wanted);
        no_place(rest, wanted);
    }
}

/// Of a name that no listed application has, though one may begin with it, nothing new
/// is remembered.
pub proof fn beginnings_are_not_remembered(
    cache: Map<Seq<char>, PidEntry>,
    app_name: Seq<char>,
    apps: Seq<(i32, Seq<char>)>,
    now: u64,
    listed_at: u64,
    later: u64,
)
    requires
        !lowered(apps).contains(lowercase(app_name)),
    ensures
        known_pid(cache_after(cache, app_name, apps, now, listed_at), app_name, later)
            == known_pid(cache, app_name, later),
{
    unlisted_is_kept(
        cache,
        lowered(apps),
        pids_of(apps),
        expiry(listed_at),
        lowercase(app_name),
    );
}

/// Names that are the same in lower case mean the same process, or both none, and leave
/// the same behind.
pub proof fn case_does_not_matter(
    cache: Map<Seq<char>, PidEntry>,
    a: Seq<char>,
    b: Seq<char>,
    apps: Seq<(i32, Seq<char>)>,
    now: u64,
    listed_at: u64,
)
    requires
        lowercase(a) == lowercase(b),
        pid_target(a) is None,
        pid_target(b) is None,
    ensures
        lookup(cache, a, apps, now) == lookup(cache, b, apps, now),
        cache_after(cache, a, apps, now, listed_at) == cache_after(cache, b, apps, now, listed_at),
{
}

/// A process named outright is found without looking, whatever is remembered and
/// whatever runs, and nothing is remembered of it.
pub proof fn process_target_needs_no_lookup(
    cache: Map<Seq<char>, PidEntry>,
    app_name: Seq<char>,
    apps: Seq<(i32, Seq<char>)>,
    now: u64,
    listed_at: u64,
)
    requires
        pid_target(app_name) is Some,
    ensures
        known_pid(cache, app_name, now) == pid_target(app_name),
        lookup(cache, app_name, apps, now) == pid_target(app_name),
        cache_after(cache, app_name, apps, now, listed_at) == cache,
{
}

/// Looking for one process and looking for all agree, unless something else is taken for
/// granted: the one is the first of all, and there is none where there are none.
pub proof fn found_pid_is_first_of_all(
    cache: Map<Seq<char>, PidEntry>,
    app_name: Seq<char>,
    apps: Seq<(i32, Seq<char>)>,
    now: u64,
)
    requires
        pid_target(app_name) is Some || cached(cache, lowercase(app_name), now) is None,
    ensures
        lookup(cache, app_name, apps, now) == (if apps_meant(app_name, apps).len() > 0 {
            Some(apps_meant(app_name, apps)[0].0)
        } else {
            None
        }),
{
}

/// How a name is looked up. A process named outright is that process. A name that was
/// listed, and whose entry has not expired, is the process of the entry. Any other name is
/// the first application listed that has it or, if none has it, the first whose name
/// begins with it; if there is none of these either, nothing is found. Upper and lower
/// case do not differ.
pub proof fn names_are_looked_up_in_order(
    cache: Map<Seq<char>, PidEntry>,
    app_name: Seq<char>,
    apps: Seq<(i32, Seq<char>)>,
    now: u64,
    i: int,
)
    ensures
        ({
            let wanted = lowercase(app_name);
            let found = lookup(cache, app_name, apps, now);
            let counts = cache.contains_key(wanted) && cache[wanted].expires > now;
            match pid_target(app_name) {
                Some(pid) => found == Some(pid),
                None => {
                    &&& counts ==> found == Some(cache[wanted].pid)
                    &&& !counts && 0 <= i < apps.len() && lowercase(apps[i].1) == wanted && (
                    forall|j: int|
                        0 <= j < i ==> lowercase((#[trigger] apps[j]).1) != wanted) ==> found
                        == Some(apps[i].0)
                    &&& !counts && 0 <= i < apps.len() && wanted.len() <= lowercase(
                        apps[i].1,
                    ).len() && lowercase(apps[i].1).take(wanted.len() as int) == wanted && (
                    forall|j: int|
                        0 <= j < apps.len() ==> lowercase((#[trigger] apps[j]).1) != wanted) && (
                    forall|j: int|
                        0 <= j < i ==> wanted.len() > lowercase((#[trigger] apps[j]).1).len()
                            || lowercase(apps[j].1).take(wanted.len() as int) != wanted)
                        ==> found == Some(apps[i].0)
                    &&& !counts && (forall|j: int|
                        0 <= j < apps.len() ==> wanted.len() > lowercase(
                            (#[trigger] apps[j]).1,
                        ).len() || lowercase(apps[j].1).take(wanted.len() as int) != wanted)
                        ==> found is None
                },
            }
        }),
{
    let wanted = lowercase(app_name);
    let names = lowered(apps);
    let meant = places_meant(wanted, names);
    all_names_meant_are_found(wanted, names);
    assert forall|j: int| 0 <= j < apps.len() implies #[trigger] names[j] == lowercase(
        apps[j].1,
    ) by {}
    assert(wanted.take(wanted.len() as int) =~= wanted);
    if meant.len() > 0 {
        let f = meant[0];
        assert(meant.contains(f));
        assert(lowercase(apps[f].1) == names[f]);
        if meant.contains(i) {
            let k = choose|k: int| 0 <= k < meant.len() && meant[k] == i;
            assert(f <= i) by {
                if k > 0 {
                    assert(meant[0] < meant[k]);
                }
            }
        }
    }
    if 0 <= i < apps.len() {
        assert(names[i] == lowercase(apps[i].1));
        if forall|j: int| 0 <= j < apps.len() ==> lowercase((#[trigger] apps[j]).1) != wanted {
            assert forall|j: int| 0 <= j < names.len() implies #[trigger] names[j] != wanted by {
                assert(lowercase(apps[j].1) != wanted);
            }
        }
        assert(names[i] == wanted ==> meant.contains(i));
    }
}

/// What a lookup leaves behind. Where the name was not known but was found in the list, the
/// process last listed under each name counts for thirty seconds from the listing, and
/// what was known of names that are not listed stays; otherwise nothing changes.
pub proof fn listed_names_count_for_thirty_seconds(
    cache: Map<Seq<char>, PidEntry>,
    app_name: Seq<char>,
    apps: Seq<(i32, Seq<char>)>,
    now: u64,
    listed_at: u64,
    i: int,
    key: Seq<char>,
)
    ensures
        ({
            let wanted = lowercase(app_name);
            let then = cache_after(cache, app_name, apps, now, listed_at);
            let counts = cache.contains_key(wanted) && cache[wanted].expires > now;
            let found = lookup(cache, app_name, apps, now) is Some;
            if pid_target(app_name) is None && !counts && found {
                &&& 0 <= i < apps.len() && (forall|j: int|
                    i < j < apps.len() ==> lowercase((#[trigger] apps[j]).1) != lowercase(
                        apps[i].1,
                    )) ==> {
                    &&& then.contains_key(lowercase(apps[i].1))
                    &&& then[lowercase(apps[i].1)].pid == apps[i].0
                    &&& then[lowercase(apps[i].1)].expires == listed_at + 30_000_000_000
                }
                &&& (forall|j: int|
                    0 <= j < apps.len() ==> lowercase((#[trigger] apps[j]).1) != key)
                    ==> then.contains_key(key) == cache.contains_key(key) && (cache.contains_key(
                    key,
                ) ==> then[key] == cache[key])
            } else {
                then == cache
            }
        }),
{
    let names = lowered(apps);
    if 0 <= i < apps.len() && (forall|j: int|
        i < j < apps.len() ==> lowercase((#[trigger] apps[j]).1) != lowercase(apps[i].1)) {
        assert forall|j: int| i < j < names.len() implies names[j] != names[i] by {
            assert(lowercase(apps[j].1) != lowercase(apps[i].1));
        }
        last_listed_is_remembered(cache, names, pids_of(apps), expiry(listed_at), i);
    }
    if forall|j: int| 0 <= j < apps.len() ==> lowercase((#[trigger] apps[j]).1) != key {
        assert(!names.contains(key)) by {
            if names.contains(key) {
                let j = choose|j: int| 0 <= j < names.len() && names[j] == key;
                assert(lowercase(apps[j].1) == key);
            }
        }
        unlisted_is_kept(cache, names, pids_of(apps), expiry(listed_at), key);
    }
}

} // verus!
