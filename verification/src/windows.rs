//! Which window of an application to capture.

#[allow(unused_imports)]
use vstd::arithmetic::power2::{
    lemma2_to64, lemma_pow2_adds, lemma_pow2_pos, lemma_pow2_unfold, pow2,
};
use vstd::prelude::*;

use crate::apps::{find_app_pids, WindowEntry};
#[allow(unused_imports)]
use crate::apps::{apps_meant, ascends, listed, one_place_more};
use crate::error::Error;
#[allow(unused_imports)]
use crate::error::ErrorView;
use crate::text::{concat2, contains, to_lowercase};
#[allow(unused_imports)]
use crate::text::{has_part, lowercase, texts};

verus! {

/// One more than the largest integer of which every smaller one is a double.
pub const DOUBLE_LIMIT: u64 = 0x20_0000_0000_0000;

/// The distance between neighbouring doubles around `n`, at least 1.
pub open spec fn double_unit(n: nat) -> nat
    decreases n,
{
    if n < DOUBLE_LIMIT {
        1
    } else {
        2 * double_unit(n / 2)
    }
}

/// The double nearest to `n`; of two that are equally near, the even one.
pub open spec fn nearest_double(n: nat) -> nat {
    let unit = double_unit(n);
    let below = n / unit;
    let rest = n % unit;
    if 2 * rest > unit || (2 * rest == unit && below % 2 == 1) {
        (below + 1) * unit
    } else {
        below * unit
    }
}

proof fn double_unit_bounds(n: nat)
    ensures
        double_unit(n) >= 1,
        n < DOUBLE_LIMIT * double_unit(n),
        double_unit(n) > 1 ==> (DOUBLE_LIMIT / 2) * double_unit(n) <= n,
        double_unit(n) > 1 ==> n >= DOUBLE_LIMIT,
    decreases n,
{
    if n >= DOUBLE_LIMIT {
        let half = double_unit(n / 2);
        double_unit_bounds(n / 2);
        assert((DOUBLE_LIMIT / 2) * (2 * half) == 2 * ((DOUBLE_LIMIT / 2) * half))
            by (nonlinear_arith);
    }
}

proof fn double_unit_grows(a: nat, b: nat)
    requires
        a <= b,
    ensures
        double_unit(a) == double_unit(b) || 2 * double_unit(a) <= double_unit(b),
    decreases b,
{
    double_unit_bounds(b);
    if b >= DOUBLE_LIMIT {
        double_unit_bounds(b / 2);
        if a >= DOUBLE_LIMIT {
            double_unit_grows(a / 2, b / 2);
        }
    }
}

proof fn nearest_double_bounds(n: nat)
    ensures
        (n / double_unit(n)) * double_unit(n) <= nearest_double(n) <= (n / double_unit(n) + 1)
            * double_unit(n),
        n / double_unit(n) < DOUBLE_LIMIT,
        (n / double_unit(n)) * double_unit(n) <= n,
        double_unit(n) > 1 ==> n / double_unit(n) >= DOUBLE_LIMIT / 2,
{
    double_unit_bounds(n);
    let u = double_unit(n);
    let q = n / u;
    assert(q * u <= n && n < (q + 1) * u && (q + 1) * u == q * u + u) by (nonlinear_arith)
        requires
            u >= 1,
            q == n / u,
    ;
    assert(q < DOUBLE_LIMIT) by (nonlinear_arith)
        requires
            q * u <= n,
            n < DOUBLE_LIMIT * u,
    ;
    if u > 1 {
        assert(q >= DOUBLE_LIMIT / 2) by (nonlinear_arith)
            requires
                n < (q + 1) * u,
                (DOUBLE_LIMIT / 2) * u <= n,
                u > 1,
        ;
    }
}

/// Ranking by doubles never turns the order of two areas round.
pub proof fn nearest_double_keeps_order(a: nat, b: nat)
    requires
        a <= b,
    ensures
        nearest_double(a) <= nearest_double(b),
{
    double_unit_bounds(a);
    double_unit_bounds(b);
    double_unit_grows(a, b);
    nearest_double_bounds(a);
    nearest_double_bounds(b);
    let u = double_unit(a);
    let v = double_unit(b);
    let p = a / u;
    let q = b / v;
    if u == v {
        assert(p <= q) by (nonlinear_arith)
            requires
                a <= b,
                u >= 1,
                p == a / u,
                q == b / u,
        ;
        if p < q {
            assert((p + 1) * u <= q * u) by (nonlinear_arith)
                requires
                    p < q,
            ;
        } else {
            assert(a % u <= b % u) by (nonlinear_arith)
                requires
                    a <= b,
                    u >= 1,
                    a / u == b / u,
            ;
            assert((p + 1) * u == p * u + u) by (nonlinear_arith);
        }
    } else {
        assert((p + 1) * u <= q * v) by (nonlinear_arith)
            requires
                p + 1 <= DOUBLE_LIMIT,
                q >= DOUBLE_LIMIT / 2,
                2 * u <= v,
                DOUBLE_LIMIT == 0x20_0000_0000_0000,
        ;
    }
}

/// Areas below the limit are ranked by their exact value.
pub proof fn nearest_double_is_exact_below_the_limit(n: nat)
    requires
        n < DOUBLE_LIMIT,
    ensures
        nearest_double(n) == n,
{
    let unit = double_unit(n);
    assert(n / unit == n && n % unit == 0 && n * unit == n) by (nonlinear_arith)
        requires
            unit == 1,
    ;
}

fn find_double_unit(n: u64) -> (r: u64)
    ensures
        r == double_unit(n as nat),
    decreases n,
{
    if n < DOUBLE_LIMIT {
        1
    } else {
        let half = find_double_unit(n / 2);
        proof {
            double_unit_bounds(n as nat / 2);
            assert(half <= n / 2) by (nonlinear_arith)
                requires
                    half > 1 ==> (DOUBLE_LIMIT / 2) * half <= n / 2,
                    n >= DOUBLE_LIMIT,
                    DOUBLE_LIMIT == 0x20_0000_0000_0000,
            ;
        }
        2 * half
    }
}

/// The double nearest to a number of square points.
pub fn round_to_double(n: u64) -> (r: u64)
    requires
        n <= i64::MAX,
    ensures
        r == nearest_double(n as nat),
{
    let unit = find_double_unit(n);
    proof {
        double_unit_bounds(n as nat);
        nearest_double_bounds(n as nat);
        let u = double_unit(n as nat);
        let q = n as nat / u;
        assert((q + 1) * u == q * u + u) by (nonlinear_arith);
        assert(u <= n || u == 1) by (nonlinear_arith)
            requires
                u > 1 ==> (DOUBLE_LIMIT / 2) * u <= n,
                u >= 1,
        ;
    }
    let below = n / unit;
    let rest = n % unit;
    if 2 * rest > unit || (2 * rest == unit && below % 2 == 1) {
        (below + 1) * unit
    } else {
        below * unit
    }
}

/// A window that can be captured: its number, and its area as a double.
#[derive(Clone, Copy, Debug, PartialEq, Eq, Structural)]
pub struct Window {
    pub id: u32,
    pub area: u64,
}

/// Windows with their titles as texts.
pub open spec fn titled(v: Seq<(Window, String)>) -> Seq<(Window, Seq<char>)> {
    v.map_values(|c: (Window, String)| (c.0, c.1@))
}

/// Whether one of the owners is process `pid`.
pub open spec fn owned_by(owners: Seq<(i32, Seq<char>)>, pid: i32) -> bool {
    exists|i: int| 0 <= i < owners.len() && (#[trigger] owners[i]).0 == pid
}

fn is_owner(owners: &Vec<(i32, String)>, pid: i32) -> (r: bool)
    ensures
        r == owned_by(listed(owners@), pid),
{
    let mut i: usize = 0;
    while i < owners.len()
        invariant
            i <= owners.len(),
            forall|j: int| 0 <= j < i ==> (#[trigger] listed(owners@)[j]).0 != pid,
        decreases owners.len() - i,
    {
        assert(listed(owners@)[i as int].0 == owners@[i as int].0);
        if owners[i].0 == pid {
            return true;
        }
        i += 1;
    }
    false
}

/// The least width and height of a window worth capturing.
pub const MIN_SIDE: i64 = 100;

/// Whether an entry is a window of one of the owners that can be captured: on the
/// normal layer, large enough and numbered.
pub open spec fn is_capturable(entry: WindowEntry, owners: Seq<(i32, Seq<char>)>) -> bool {
    &&& entry.owner_pid is Some
    &&& owned_by(owners, entry.owner_pid->0.value as i32)
    &&& entry.layer is Some ==> entry.layer->0.value == 0
    &&& entry.bounds is Some
    &&& entry.bounds->0.width is Some
    &&& entry.bounds->0.height is Some
    &&& entry.bounds->0.width->0.value >= MIN_SIDE
    &&& entry.bounds->0.height->0.value >= MIN_SIDE
    &&& entry.number is Some
}

/// The area of a window, in square points.
pub open spec fn entry_area(entry: WindowEntry) -> int {
    entry.bounds->0.width->0.value * entry.bounds->0.height->0.value
}

/// Whether the area of every window to capture can be computed.
pub open spec fn areas_fit(entries: Seq<WindowEntry>, owners: Seq<(i32, Seq<char>)>) -> bool {
    forall|i: int|
        0 <= i < entries.len() && is_capturable(#[trigger] entries[i], owners) ==> entry_area(
            entries[i],
        ) <= i64::MAX
}

/// What there is to capture of an entry, and its title.
pub open spec fn capturable_window(entry: WindowEntry) -> (Window, Seq<char>) {
    (
        Window {
            id: entry.number->0.value as u32,
            area: nearest_double(entry_area(entry) as nat) as u64,
        },
        match entry.title {
            Some(title) => title@,
            None => Seq::empty(),
        },
    )
}

/// The windows of the owners that can be captured, in the order of the list.
pub open spec fn capturable(entries: Seq<WindowEntry>, owners: Seq<(i32, Seq<char>)>) -> Seq<
    (Window, Seq<char>),
>
    decreases entries.len(),
{
    if entries.len() == 0 {
        Seq::empty()
    } else {
        let rest = capturable(entries.drop_last(), owners);
        if is_capturable(entries.last(), owners) {
            rest.push(capturable_window(entries.last()))
        } else {
            rest
        }
    }
}

fn can_capture(entry: &WindowEntry, owners: &Vec<(i32, String)>) -> (r: bool)
    ensures
        r == is_capturable(*entry, listed(owners@)),
{
    match entry.owner_pid {
        Some(owner) => {
            if !is_owner(owners, owner.value as i32) {
                return false;
            }
        },
        None => {
            return false;
        },
    }
    if let Some(layer) = entry.layer {
        if layer.value != 0 {
            return false;
        }
    }
    match entry.bounds {
        Some(bounds) => match (bounds.width, bounds.height) {
            (Some(width), Some(height)) => {
                width.value >= MIN_SIDE && height.value >= MIN_SIDE && entry.number.is_some()
            },
            _ => false,
        },
        None => false,
    }
}

/// Whether the area of every window to capture can be computed.
pub fn check_areas(entries: &Vec<WindowEntry>, owners: &Vec<(i32, String)>) -> (r: bool)
    ensures
        r == areas_fit(entries@, listed(owners@)),
{
    let mut i: usize = 0;
    while i < entries.len()
        invariant
            i <= entries.len(),
            forall|j: int|
                0 <= j < i && is_capturable(#[trigger] entries@[j], listed(owners@)) ==> entry_area(
                    entries@[j],
                ) <= i64::MAX,
        decreases entries.len() - i,
    {
        let entry = &entries[i];
        if can_capture(entry, owners) {
            let bounds = entry.bounds.unwrap();
            let width = bounds.width.unwrap().value;
            let height = bounds.height.unwrap().value;
            if width.checked_mul(height).is_none() {
                assert(entry_area(*entry) >= 0) by (nonlinear_arith)
                    requires
                        entry_area(*entry) == width * height,
                        width >= 0,
                        height >= 0,
                ;
                return false;
            }
        }
        i += 1;
    }
    true
}

/// The windows of the owners that can be captured, with their titles, in the order
/// of the list.
pub fn find_capturable(entries: &Vec<WindowEntry>, owners: &Vec<(i32, String)>) -> (r: Vec<
    (Window, String),
>)
    requires
        areas_fit(entries@, listed(owners@)),
    ensures
        titled(r@) == capturable(entries@, listed(owners@)),
{
    let mut found: Vec<(Window, String)> = Vec::new();
    let mut i: usize = 0;
    while i < entries.len()
        invariant
            i <= entries.len(),
            areas_fit(entries@, listed(owners@)),
            titled(found@) =~= capturable(entries@.take(i as int), listed(owners@)),
        decreases entries.len() - i,
    {
        let entry = &entries[i];
        assert(entries@.take(i + 1).drop_last() =~= entries@.take(i as int));
        assert(entries@.take(i + 1).last() == *entry);
        if can_capture(entry, owners) {
            let bounds = entry.bounds.unwrap();
            let width = bounds.width.unwrap().value;
            let height = bounds.height.unwrap().value;
            assert(0 <= width * height) by (nonlinear_arith)
                requires
                    width >= 0,
                    height >= 0,
            ;
            assert(width * height == entry_area(entries@[i as int]));
            let area = round_to_double((width * height) as u64);
            let id: u32 = entry.number.unwrap().value as u32;
            let title = match &entry.title {
                Some(title) => title.clone(),
                None => String::new(),
            };
            found.push((Window { id, area }, title));
        }
        i += 1;
    }
    assert(entries@.take(entries@.len() as int) =~= entries@);
    found
}

/// Where a window of that area belongs: behind the last one that is not larger.
pub open spec fn rank_for(ranked: Seq<Window>, area: u64) -> int
    decreases ranked.len(),
{
    if ranked.len() > 0 && ranked.last().area > area {
        rank_for(ranked.drop_last(), area)
    } else {
        ranked.len() as int
    }
}

/// The windows by area, the smallest first; windows of one area keep their order.
pub open spec fn by_area(windows: Seq<Window>) -> Seq<Window>
    decreases windows.len(),
{
    if windows.len() == 0 {
        Seq::empty()
    } else {
        let rest = by_area(windows.drop_last());
        rest.insert(rank_for(rest, windows.last().area), windows.last())
    }
}

/// Whether no window is smaller than one before it.
pub open spec fn is_ascending(windows: Seq<Window>) -> bool {
    forall|i: int, j: int|
        0 <= i < j < windows.len() ==> (#[trigger] windows[i]).area <= (
        #[trigger] windows[j]).area
}

/// Having that area.
pub open spec fn of_area(area: u64) -> spec_fn(Window) -> bool {
    |w: Window| w.area == area
}

proof fn rank_for_splits(ranked: Seq<Window>, area: u64)
    requires
        is_ascending(ranked),
    ensures
        0 <= rank_for(ranked, area) <= ranked.len(),
        forall|i: int|
            0 <= i < rank_for(ranked, area) ==> (#[trigger] ranked[i]).area <= area,
        forall|i: int|
            rank_for(ranked, area) <= i < ranked.len() ==> (#[trigger] ranked[i]).area > area,
    decreases ranked.len(),
{
    if ranked.len() > 0 && ranked.last().area > area {
        let rest = ranked.drop_last();
        assert(is_ascending(rest)) by {
            assert forall|i: int, j: int| 0 <= i < j < rest.len() implies (
            #[trigger] rest[i]).area <= (#[trigger] rest[j]).area by {
                assert(ranked[i].area <= ranked[j].area);
            }
        }
        rank_for_splits(rest, area);
        assert forall|i: int| 0 <= i < rank_for(ranked, area) implies (
        #[trigger] ranked[i]).area <= area by {
            assert(rest[i] == ranked[i]);
        }
        assert forall|i: int| rank_for(ranked, area) <= i < ranked.len() implies (
        #[trigger] ranked[i]).area > area by {
            if i < rest.len() {
                assert(rest[i] == ranked[i]);
            }
        }
    } else if ranked.len() > 0 {
        assert forall|i: int| 0 <= i < ranked.len() implies (#[trigger] ranked[i]).area <= area by {
            if i < ranked.len() - 1 {
                assert(ranked[i].area <= ranked[ranked.len() - 1].area);
            }
        }
    }
}

/// The ranking is by area, the smallest first, and loses or adds no window.
pub proof fn by_area_is_ascending(windows: Seq<Window>)
    ensures
        is_ascending(by_area(windows)),
        by_area(windows).len() == windows.len(),
    decreases windows.len(),
{
    if windows.len() > 0 {
        let rest = by_area(windows.drop_last());
        let last = windows.last();
        by_area_is_ascending(windows.drop_last());
        rank_for_splits(rest, last.area);
        let at = rank_for(rest, last.area);
        let all = by_area(windows);
        assert forall|i: int, j: int| 0 <= i < j < all.len() implies (#[trigger] all[i]).area <= (
        #[trigger] all[j]).area by {
            let p = if i < at {
                i
            } else {
                i - 1
            };
            let q = if j < at {
                j
            } else {
                j - 1
            };
            assert(i != at ==> all[i] == rest[p]);
            assert(j != at ==> all[j] == rest[q]);
        }
    }
}

/// The ranking is stable: the windows of any one area stand in it as they stood
/// before. With the order by area, this leaves one ranking only.
pub proof fn by_area_is_stable(windows: Seq<Window>, area: u64)
    ensures
        by_area(windows).filter(of_area(area)) == windows.filter(of_area(area)),
    decreases windows.len(),
{
    if windows.len() == 0 {
        assert(by_area(windows) =~= windows);
    } else {
        let rest = by_area(windows.drop_last());
        let last = windows.last();
        let p = of_area(area);
        by_area_is_ascending(windows.drop_last());
        by_area_is_stable(windows.drop_last(), area);
        rank_for_splits(rest, last.area);
        let at = rank_for(rest, last.area);
        let front = rest.take(at);
        let back = rest.skip(at);
        assert(rest =~= front + back);
        assert(by_area(windows) =~= front.push(last) + back);
        Seq::filter_distributes_over_add(front, back, p);
        Seq::filter_distributes_over_add(front.push(last), back, p);
        front.lemma_filter_push(last, p);
        windows.drop_last().lemma_filter_push(last, p);
        assert(windows.drop_last().push(last) =~= windows);
        if p(last) {
            assert(back.filter(p) =~= Seq::<Window>::empty()) by {
                back.lemma_all_neg_filter_empty(p);
            }
        }
    }
}

proof fn filter_by_last(s: Seq<Window>, p: spec_fn(Window) -> bool)
    requires
        s.len() > 0,
    ensures
        s.filter(p) == if p(s.last()) {
            s.drop_last().filter(p).push(s.last())
        } else {
            s.drop_last().filter(p)
        },
{
    s.drop_last().lemma_filter_push(s.last(), p);
    assert(s.drop_last().push(s.last()) =~= s);
}

/// Of the rankings that are by area and stable there is only one.
pub proof fn stable_ranking_is_unique(a: Seq<Window>, b: Seq<Window>)
    requires
        is_ascending(a),
        is_ascending(b),
        forall|area: u64| #[trigger] a.filter(of_area(area)) == b.filter(of_area(area)),
    ensures
        a == b,
    decreases a.len() + b.len(),
{
    if a.len() == 0 && b.len() == 0 {
        assert(a =~= b);
    } else if a.len() == 0 || b.len() == 0 {
        let s = if a.len() == 0 {
            b
        } else {
            a
        };
        let area = s.last().area;
        filter_by_last(s, of_area(area));
        assert(a.filter(of_area(area)) == b.filter(of_area(area)));
        Seq::<Window>::empty().lemma_filter_len(of_area(area));
        assert(a.len() == 0 ==> a =~= Seq::<Window>::empty());
        assert(b.len() == 0 ==> b =~= Seq::<Window>::empty());
    } else {
        let x = a.last().area;
        let y = b.last().area;
        largest_is_last(a, b, x);
        largest_is_last(b, a, y);
        assert(a.filter(of_area(x)) == b.filter(of_area(x)));
        filter_by_last(a, of_area(x));
        filter_by_last(b, of_area(x));
        assert(a.filter(of_area(x)).last() == a.last());
        assert(b.filter(of_area(x)).last() == b.last());
        let c = a.drop_last();
        let d = b.drop_last();
        assert(is_ascending(c)) by {
            assert forall|i: int, j: int| 0 <= i < j < c.len() implies (#[trigger] c[i]).area <= (
            #[trigger] c[j]).area by {
                assert(a[i].area <= a[j].area);
            }
        }
        assert(is_ascending(d)) by {
            assert forall|i: int, j: int| 0 <= i < j < d.len() implies (#[trigger] d[i]).area <= (
            #[trigger] d[j]).area by {
                assert(b[i].area <= b[j].area);
            }
        }
        assert forall|area: u64| #[trigger] c.filter(of_area(area)) == d.filter(of_area(area)) by {
            let p = of_area(area);
            assert(a.filter(p) == b.filter(p));
            filter_by_last(a, p);
            filter_by_last(b, p);
            if p(a.last()) {
                assert(c.filter(p) =~= a.filter(p).drop_last());
                assert(d.filter(p) =~= b.filter(p).drop_last());
            }
        }
        stable_ranking_is_unique(c, d);
        assert(a =~= c.push(a.last()));
        assert(b =~= d.push(b.last()));
    }
}

proof fn largest_is_last(a: Seq<Window>, b: Seq<Window>, area: u64)
    requires
        a.len() > 0,
        b.len() > 0,
        is_ascending(b),
        area == a.last().area,
        a.filter(of_area(area)) == b.filter(of_area(area)),
    ensures
        b.last().area >= area,
{
    let p = of_area(area);
    filter_by_last(a, p);
    if forall|i: int| 0 <= i < b.len() ==> !p(b[i]) {
        b.lemma_all_neg_filter_empty(p);
    } else {
        let i = choose|i: int| 0 <= i < b.len() && p(b[i]);
        if i < b.len() - 1 {
            assert(b[i].area <= b[b.len() - 1].area);
        }
    }
}

fn rank_by_area(windows: &Vec<Window>) -> (r: Vec<Window>)
    ensures
        r@ == by_area(windows@),
{
    let mut ranked: Vec<Window> = Vec::new();
    let mut i: usize = 0;
    while i < windows.len()
        invariant
            i <= windows.len(),
            ranked@ == by_area(windows@.take(i as int)),
        decreases windows.len() - i,
    {
        let window = windows[i];
        let mut at: usize = ranked.len();
        assert(ranked@.take(at as int) =~= ranked@);
        while at > 0 && ranked[at - 1].area > window.area
            invariant
                at <= ranked.len(),
                rank_for(ranked@, window.area) == rank_for(ranked@.take(at as int), window.area),
            decreases at,
        {
            assert(ranked@.take(at as int).drop_last() =~= ranked@.take(at - 1));
            at -= 1;
        }
        assert(rank_for(ranked@.take(at as int), window.area) == at);
        assert(windows@.take(i + 1).drop_last() =~= windows@.take(i as int));
        ranked.insert(at, window);
        i += 1;
    }
    assert(windows@.take(windows@.len() as int) =~= windows@);
    ranked
}

/// Whether a title, in lower case, is that of a dashboard.
pub open spec fn is_dashboard(title: Seq<char>) -> bool {
    has_part(title, "dashboard"@)
}

/// The windows that are no dashboards, by their titles in lower case.
pub open spec fn without_dashboards(windows: Seq<Window>, titles: Seq<Seq<char>>) -> Seq<Window>
    decreases windows.len(),
{
    if windows.len() == 0 {
        Seq::empty()
    } else {
        let rest = without_dashboards(windows.drop_last(), titles);
        if is_dashboard(titles[windows.len() - 1]) {
            rest
        } else {
            rest.push(windows.last())
        }
    }
}

/// The windows to choose from: those that are no dashboards or, where there are
/// none, all of them.
pub open spec fn preferred(windows: Seq<Window>, titles: Seq<Seq<char>>) -> Seq<Window> {
    let others = without_dashboards(windows, titles);
    if others.len() > 0 {
        others
    } else {
        windows
    }
}

/// The numbers of the windows.
pub open spec fn ids(windows: Seq<Window>) -> Seq<u32> {
    windows.map_values(|w: Window| w.id)
}

/// The numbers of the windows in the order in which to try them, by their titles in
/// lower case: the smallest first, and dashboards only where there is nothing else.
pub open spec fn capture_order(windows: Seq<Window>, titles: Seq<Seq<char>>) -> Seq<u32> {
    ids(by_area(preferred(windows, titles)))
}

/// Puts windows into the order in which to try them. `titles` holds their titles in
/// lower case.
pub fn order_for_capture(windows: &Vec<Window>, titles: &Vec<String>) -> (r: Vec<u32>)
    requires
        windows.len() == titles.len(),
    ensures
        r@ == capture_order(windows@, texts(titles@)),
{
    let mut others: Vec<Window> = Vec::new();
    let mut i: usize = 0;
    while i < windows.len()
        invariant
            i <= windows.len(),
            windows.len() == titles.len(),
            others@ == without_dashboards(windows@.take(i as int), texts(titles@)),
        decreases windows.len() - i,
    {
        assert(windows@.take(i + 1).drop_last() =~= windows@.take(i as int));
        assert(texts(titles@)[i as int] == titles@[i as int]@);
        if !contains(titles[i].as_str(), "dashboard") {
            others.push(windows[i]);
        }
        i += 1;
    }
    assert(windows@.take(windows@.len() as int) =~= windows@);
    let ranked = if others.len() > 0 {
        rank_by_area(&others)
    } else {
        rank_by_area(windows)
    };
    let mut out: Vec<u32> = Vec::new();
    let mut k: usize = 0;
    while k < ranked.len()
        invariant
            k <= ranked.len(),
            out@ =~= ids(ranked@).take(k as int),
        decreases ranked.len() - k,
    {
        out.push(ranked[k].id);
        assert(ids(ranked@)[k as int] == ranked@[k as int].id);
        k += 1;
    }
    out
}

/// The windows, without their titles.
pub open spec fn untitled(found: Seq<(Window, Seq<char>)>) -> Seq<Window> {
    found.map_values(|c: (Window, Seq<char>)| c.0)
}

/// The titles in lower case.
pub open spec fn lowered_titles(found: Seq<(Window, Seq<char>)>) -> Seq<Seq<char>> {
    found.map_values(|c: (Window, Seq<char>)| lowercase(c.1))
}

/// Whether `r` says which windows to capture for an application that is these processes:
/// their numbers, in the order in which to try them, or why there are none.
pub open spec fn is_window_answer(
    r: Result<Vec<u32>, Error>,
    app_name: Seq<char>,
    owners: Seq<(i32, Seq<char>)>,
    list: Option<Vec<WindowEntry>>,
) -> bool {
    match list {
        None => r is Err && r->Err_0@ == (ErrorView::PlatformError {
            message: "failed to get window list"@,
        }),
        Some(entries) => {
            let found = capturable(entries@, owners);
            if found.len() == 0 {
                r is Err && r->Err_0@ == (ErrorView::PlatformError {
                    message: "no window found for "@ + app_name,
                })
            } else {
                r is Ok && r->Ok_0@ == capture_order(untitled(found), lowered_titles(found))
            }
        },
    }
}

/// The numbers of the windows to capture for an application, in the order in which
/// to try them. `owners` are the processes that its name means, and `list` is the
/// window list, where it could be had.
pub fn get_window_ids(
    app_name: &str,
    owners: &Vec<(i32, String)>,
    list: &Option<Vec<WindowEntry>>,
) -> (r: Result<Vec<u32>, Error>)
    requires
        list is Some ==> areas_fit(list->0@, listed(owners@)),
    ensures
        is_window_answer(r, app_name@, listed(owners@), *list),
{
    let entries = match list {
        Some(entries) => entries,
        None => {
            return Err(
                Error::PlatformError { message: "failed to get window list".to_owned() },
            );
        },
    };
    let found = find_capturable(entries, owners);
    assert(titled(found@).len() == found@.len());
    if found.len() == 0 {
        return Err(Error::PlatformError { message: concat2("no window found for ", app_name) });
    }
    let mut windows: Vec<Window> = Vec::new();
    let mut titles: Vec<String> = Vec::new();
    let mut i: usize = 0;
    while i < found.len()
        invariant
            i <= found.len(),
            windows@.len() == i,
            titles@.len() == i,
            windows@ =~= untitled(titled(found@)).take(i as int),
            texts(titles@) =~= lowered_titles(titled(found@)).take(i as int),
        decreases found.len() - i,
    {
        windows.push(found[i].0);
        titles.push(to_lowercase(found[i].1.as_str()));
        assert(titled(found@)[i as int] == (found@[i as int].0, found@[i as int].1@));
        assert(untitled(titled(found@))[i as int] == windows@[i as int]);
        assert(lowered_titles(titled(found@))[i as int] == titles@[i as int]@);
        i += 1;
    }
    assert(untitled(titled(found@)).take(found@.len() as int) =~= untitled(titled(found@)));
    assert(lowered_titles(titled(found@)).take(found@.len() as int) =~= lowered_titles(
        titled(found@),
    ));
    Ok(order_for_capture(&windows, &titles))
}

/// The numbers of the windows to capture for the application that `app_name` means among
/// the running ones, in the order in which to try them. `None` where the area of one of
/// its windows cannot be computed.
pub fn find_window_ids(
    app_name: &str,
    running: &Vec<(i32, String)>,
    list: &Option<Vec<WindowEntry>>,
) -> (r: Option<Result<Vec<u32>, Error>>)
    ensures
        ({
            let owners = apps_meant(app_name@, listed(running@));
            if owners.len() == 0 {
                &&& r is Some
                &&& r->0 is Err
                &&& r->0->Err_0@ == (ErrorView::ApplicationNotFound { name: app_name@ })
            } else if list is Some && !areas_fit(list->0@, owners) {
                r is None
            } else {
                r is Some && is_window_answer(r->0, app_name@, owners, *list)
            }
        }),
{
    let owners = match find_app_pids(app_name, running) {
        Ok(owners) => owners,
        Err(e) => {
            return Some(Err(e));
        },
    };
    assert(listed(owners@).len() == owners@.len());
    if let Some(entries) = list {
        if !check_areas(entries, &owners) {
            return None;
        }
    }
    Some(get_window_ids(app_name, &owners, list))
}

/// Where there is a window, there is one to try.
pub proof fn capture_order_is_not_empty(windows: Seq<Window>, titles: Seq<Seq<char>>)
    requires
        windows.len() > 0,
    ensures
        capture_order(windows, titles).len() > 0,
{
    by_area_is_ascending(preferred(windows, titles));
}

/// A single window is captured, dashboard or not.
pub proof fn a_single_window_is_captured(window: Window, title: Seq<char>)
    ensures
        capture_order(seq![window], seq![title]) == seq![window.id],
{
    let one = seq![window];
    let none = Seq::<Window>::empty();
    assert(one.drop_last() =~= none);
    reveal_with_fuel(without_dashboards, 2);
    reveal_with_fuel(by_area, 2);
    assert(none.push(window) =~= one);
    assert(none.insert(0, window) =~= one);
    assert(ids(one) =~= seq![window.id]);
}

proof fn others_are_no_dashboards(windows: Seq<Window>, titles: Seq<Seq<char>>)
    ensures
        forall|k: int|
            0 <= k < without_dashboards(windows, titles).len() ==> exists|j: int|
                0 <= j < windows.len() && windows[j] == #[trigger] without_dashboards(
                    windows,
                    titles,
                )[k] && !is_dashboard(#[trigger] titles[j]),
    decreases windows.len(),
{
    if windows.len() > 0 {
        let rest = without_dashboards(windows.drop_last(), titles);
        let all = without_dashboards(windows, titles);
        others_are_no_dashboards(windows.drop_last(), titles);
        assert forall|k: int| 0 <= k < all.len() implies exists|j: int|
            0 <= j < windows.len() && windows[j] == #[trigger] all[k] && !is_dashboard(
                #[trigger] titles[j],
            ) by {
            if k < rest.len() {
                assert(all[k] == rest[k]);
                let j = choose|j: int|
                    0 <= j < windows.len() - 1 && windows.drop_last()[j] == rest[k]
                        && !is_dashboard(#[trigger] titles[j]);
                assert(windows[j] == all[k] && !is_dashboard(titles[j]));
            } else {
                assert(windows[windows.len() - 1] == all[k] && !is_dashboard(
                    titles[windows.len() - 1],
                ));
            }
        }
    }
}

proof fn others_are_kept(windows: Seq<Window>, titles: Seq<Seq<char>>, i: int)
    requires
        0 <= i < windows.len(),
        !is_dashboard(titles[i]),
    ensures
        without_dashboards(windows, titles).contains(windows[i]),
    decreases windows.len(),
{
    let rest = without_dashboards(windows.drop_last(), titles);
    let all = without_dashboards(windows, titles);
    if i < windows.len() - 1 {
        others_are_kept(windows.drop_last(), titles, i);
        let k = choose|k: int| 0 <= k < rest.len() && rest[k] == windows[i];
        assert(all[k] == windows[i]);
    } else {
        assert(all[rest.len() as int] == windows[i]);
    }
}

/// Where one window is no dashboard, every window that is no dashboard is tried, and
/// no other is.
pub proof fn dashboards_are_avoided(windows: Seq<Window>, titles: Seq<Seq<char>>, i: int)
    requires
        0 <= i < windows.len(),
        !is_dashboard(titles[i]),
    ensures
        preferred(windows, titles).contains(windows[i]),
        forall|k: int|
            0 <= k < preferred(windows, titles).len() ==> exists|j: int|
                0 <= j < windows.len() && windows[j] == #[trigger] preferred(windows, titles)[k]
                    && !is_dashboard(#[trigger] titles[j]),
{
    others_are_kept(windows, titles, i);
    others_are_no_dashboards(windows, titles);
    assert(without_dashboards(windows, titles).len() > 0);
}

proof fn ranked_places(windows: Seq<Window>) -> (at: Seq<int>)
    ensures
        at.len() == windows.len(),
        by_area(windows).len() == windows.len(),
        forall|k: int|
            0 <= k < at.len() ==> 0 <= #[trigger] at[k] < windows.len() && by_area(windows)[k]
                == windows[at[k]],
        forall|i: int| 0 <= i < windows.len() ==> #[trigger] at.contains(i),
        forall|k: int, l: int|
            0 <= k < l < at.len() ==> windows[#[trigger] at[k]].area < windows[#[trigger] at[l]].area
                || (windows[at[k]].area == windows[at[l]].area && at[k] < at[l]),
    decreases windows.len(),
{
    by_area_is_ascending(windows);
    if windows.len() == 0 {
        Seq::empty()
    } else {
        let before = windows.drop_last();
        let n = windows.len() - 1;
        let ranked = by_area(before);
        let rest = ranked_places(before);
        by_area_is_ascending(before);
        rank_for_splits(ranked, windows[n].area);
        let r = rank_for(ranked, windows[n].area);
        let at = rest.insert(r, n);
        let all = by_area(windows);
        assert(all == ranked.insert(r, windows[n]));
        assert forall|k: int| 0 <= k < at.len() implies 0 <= #[trigger] at[k] < windows.len()
            && all[k] == windows[at[k]] && (k < r ==> at[k] == rest[k]) && (k > r ==> at[k]
            == rest[k - 1]) && (k == r ==> at[k] == n) by {
            if k < r {
                assert(before[rest[k]] == windows[rest[k]]);
            } else if k > r {
                assert(before[rest[k - 1]] == windows[rest[k - 1]]);
            }
        }
        assert forall|i: int| 0 <= i < windows.len() implies #[trigger] at.contains(i) by {
            if i == n {
                assert(at[r] == i);
            } else {
                assert(rest.contains(i));
                let k = choose|k: int| 0 <= k < rest.len() && rest[k] == i;
                if k < r {
                    assert(at[k] == i);
                } else {
                    assert(at[k + 1] == i);
                }
            }
        }
        assert forall|k: int, l: int| 0 <= k < l < at.len() implies windows[#[trigger] at[k]].area
            < windows[#[trigger] at[l]].area || (windows[at[k]].area == windows[at[l]].area
            && at[k] < at[l]) by {
            let p = if k < r {
                k
            } else {
                k - 1
            };
            let q = if l < r {
                l
            } else {
                l - 1
            };
            if k != r {
                assert(at[k] == rest[p]);
                assert(ranked[p] == before[rest[p]]);
                assert(before[rest[p]] == windows[rest[p]]);
            }
            if l != r {
                assert(at[l] == rest[q]);
                assert(ranked[q] == before[rest[q]]);
                assert(before[rest[q]] == windows[rest[q]]);
            }
        }
        at
    }
}

proof fn other_places(windows: Seq<Window>, titles: Seq<Seq<char>>) -> (at: Seq<int>)
    ensures
        ascends(at),
        at.len() == without_dashboards(windows, titles).len(),
        forall|k: int|
            0 <= k < at.len() ==> 0 <= #[trigger] at[k] < windows.len() && without_dashboards(
                windows,
                titles,
            )[k] == windows[at[k]],
        forall|i: int|
            0 <= i < windows.len() ==> (#[trigger] at.contains(i) <==> !has_part(
                titles[i],
                "dashboard"@,
            )),
    decreases windows.len(),
{
    if windows.len() == 0 {
        Seq::empty()
    } else {
        let before = windows.drop_last();
        let n = windows.len() - 1;
        let rest = other_places(before, titles);
        one_place_more(rest, n);
        assert(!rest.contains(n));
        let at = if has_part(titles[n], "dashboard"@) {
            rest
        } else {
            rest.push(n)
        };
        assert forall|k: int| 0 <= k < at.len() implies 0 <= #[trigger] at[k] < windows.len()
            && without_dashboards(windows, titles)[k] == windows[at[k]] by {
            if k < rest.len() {
                assert(at[k] == rest[k]);
                assert(before[rest[k]] == windows[rest[k]]);
            }
        }
        assert forall|i: int| 0 <= i < windows.len() implies (#[trigger] at.contains(i)
            <==> !has_part(titles[i], "dashboard"@)) by {
            if i < n {
                assert(rest.contains(i) <==> !has_part(titles[i], "dashboard"@));
            }
        }
        at
    }
}

/// Which windows are tried, and in which order. A window whose title does not contain the
/// word `dashboard` is always tried; one whose title does is tried only if all the titles
/// do. The smaller window comes first, and of two of one area the one that stood first.
///
/// The places of the windows, in the order in which they are tried, are returned.
pub proof fn smaller_windows_without_dashboards_first(
    windows: Seq<Window>,
    titles: Seq<Seq<char>>,
) -> (at: Seq<int>)
    ensures
        at.len() == capture_order(windows, titles).len(),
        forall|k: int|
            0 <= k < at.len() ==> 0 <= #[trigger] at[k] < windows.len() && capture_order(
                windows,
                titles,
            )[k] == windows[at[k]].id,
        forall|i: int|
            0 <= i < windows.len() ==> (#[trigger] at.contains(i) <==> !has_part(
                titles[i],
                "dashboard"@,
            ) || forall|j: int|
                0 <= j < windows.len() ==> has_part(#[trigger] titles[j], "dashboard"@)),
        forall|k: int, l: int|
            0 <= k < l < at.len() ==> windows[#[trigger] at[k]].area < windows[#[trigger] at[l]].area
                || (windows[at[k]].area == windows[at[l]].area && at[k] < at[l]),
        forall|i: int|
            0 <= i < windows.len() && !has_part(#[trigger] titles[i], "dashboard"@)
                ==> capture_order(windows, titles).contains(windows[i].id),
{
    let others = other_places(windows, titles);
    let order = capture_order(windows, titles);
    let chosen = preferred(windows, titles);
    let ranked = ranked_places(chosen);
    assert(order =~= ids(by_area(chosen)));
    assert(ids(by_area(chosen)).len() == by_area(chosen).len());
    if others.len() > 0 {
        assert(others.contains(others[0]));
        assert(!has_part(titles[others[0]], "dashboard"@));
        let at = Seq::new(ranked.len(), |k: int| others[ranked[k]]);
        assert forall|k: int| 0 <= k < at.len() implies 0 <= #[trigger] at[k] < windows.len()
            && order[k] == windows[at[k]].id by {
            assert(at[k] == others[ranked[k]]);
            assert(by_area(chosen)[k] == chosen[ranked[k]]);
        }
        assert forall|i: int| 0 <= i < windows.len() implies (#[trigger] at.contains(i)
            <==> others.contains(i)) by {
            if others.contains(i) {
                let m = choose|m: int| 0 <= m < others.len() && others[m] == i;
                assert(ranked.contains(m));
                let k = choose|k: int| 0 <= k < ranked.len() && ranked[k] == m;
                assert(at[k] == i);
            }
            if at.contains(i) {
                let k = choose|k: int| 0 <= k < at.len() && at[k] == i;
                assert(others[ranked[k]] == i);
            }
        }
        assert forall|k: int, l: int| 0 <= k < l < at.len() implies windows[#[trigger] at[k]].area
            < windows[#[trigger] at[l]].area || (windows[at[k]].area == windows[at[l]].area
            && at[k] < at[l]) by {
            assert(at[k] == others[ranked[k]] && at[l] == others[ranked[l]]);
            assert(chosen[ranked[k]] == windows[at[k]]);
            assert(chosen[ranked[l]] == windows[at[l]]);
        }
        assert forall|i: int|
            0 <= i < windows.len() && !has_part(
                #[trigger] titles[i],
                "dashboard"@,
            ) implies order.contains(windows[i].id) by {
            assert(others.contains(i));
            assert(at.contains(i));
            let k = choose|k: int| 0 <= k < at.len() && at[k] == i;
            assert(order[k] == windows[i].id);
        }
        at
    } else {
        assert(chosen == windows);
        assert forall|j: int| 0 <= j < windows.len() implies has_part(
            #[trigger] titles[j],
            "dashboard"@,
        ) by {
            assert(!others.contains(j));
        }
        assert forall|k: int| 0 <= k < ranked.len() implies 0 <= #[trigger] ranked[k]
            < windows.len() && order[k] == windows[ranked[k]].id by {
            assert(by_area(chosen)[k] == chosen[ranked[k]]);
        }
        ranked
    }
}

/// Which entries of the window list are windows that can be captured: those of the owners
/// that are on layer 0 or on none that is known, at least a hundred points wide and high,
/// and numbered. They come in the order of the list, each with its number, its area as a
/// double, and its title.
///
/// Their places in the list are returned.
pub proof fn windows_to_capture_are_all_found(
    entries: Seq<WindowEntry>,
    owners: Seq<(i32, Seq<char>)>,
) -> (at: Seq<int>)
    ensures
        ascends(at),
        at.len() == capturable(entries, owners).len(),
        forall|k: int|
            0 <= k < at.len() ==> {
                let entry = entries[#[trigger] at[k]];
                let area = entry.bounds->0.width->0.value * entry.bounds->0.height->0.value;
                &&& 0 <= at[k] < entries.len()
                &&& capturable(entries, owners)[k].0.id == entry.number->0.value as u32
                &&& capturable(entries, owners)[k].0.area == nearest_double(area as nat) as u64
                &&& entry.title is Some ==> capturable(entries, owners)[k].1 == entry.title->0@
                &&& entry.title is None ==> capturable(entries, owners)[k].1 == Seq::<
                    char,
                >::empty()
            },
        forall|i: int|
            0 <= i < entries.len() ==> (#[trigger] at.contains(i) <==> {
                let entry = entries[i];
                &&& entry.owner_pid is Some
                &&& exists|o: int|
                    0 <= o < owners.len() && (#[trigger] owners[o]).0
                        == entry.owner_pid->0.value as i32
                &&& entry.layer is None || entry.layer->0.value == 0
                &&& entry.bounds is Some
                &&& entry.bounds->0.width is Some && entry.bounds->0.width->0.value >= 100
                &&& entry.bounds->0.height is Some && entry.bounds->0.height->0.value >= 100
                &&& entry.number is Some
            }),
    decreases entries.len(),
{
    if entries.len() == 0 {
        Seq::empty()
    } else {
        let before = entries.drop_last();
        let n = entries.len() - 1;
        let rest = windows_to_capture_are_all_found(before, owners);
        one_place_more(rest, n);
        assert(!rest.contains(n));
        let at = if is_capturable(entries[n], owners) {
            rest.push(n)
        } else {
            rest
        };
        let found = capturable(entries, owners);
        let found_before = capturable(before, owners);
        assert forall|k: int| 0 <= k < at.len() implies {
            let entry = entries[#[trigger] at[k]];
            let area = entry.bounds->0.width->0.value * entry.bounds->0.height->0.value;
            &&& 0 <= at[k] < entries.len()
            &&& found[k].0.id == entry.number->0.value as u32
            &&& found[k].0.area == nearest_double(area as nat) as u64
            &&& entry.title is Some ==> found[k].1 == entry.title->0@
            &&& entry.title is None ==> found[k].1 == Seq::<char>::empty()
        } by {
            if k < rest.len() {
                assert(at[k] == rest[k]);
                assert(before[rest[k]] == entries[rest[k]]);
                assert(found[k] == found_before[k]);
            }
        }
        assert forall|i: int| 0 <= i < n implies #[trigger] before[i] == entries[i] && (
        at.contains(i) <==> rest.contains(i)) by {}
        at
    }
}

/// Which windows are tried for an application, and in which order, from the window list on.
/// The windows that count are those of the application's processes that are on layer 0 or
/// on none that is known, at least a hundred points wide and high, and numbered. Of these
/// the ones whose titles in lower case do not contain `dashboard` are tried, and all of
/// them if all titles do. The smaller one, as doubles go, comes first, and of two of one
/// area the one that stood first. Where no window counts, that is the error.
///
/// The places in the list of the windows to try, in order, are returned.
pub proof fn an_application_is_captured_by_its_smallest_window(
    r: Result<Vec<u32>, Error>,
    app_name: Seq<char>,
    owners: Seq<(i32, Seq<char>)>,
    list: Vec<WindowEntry>,
) -> (at: Seq<int>)
    requires
        is_window_answer(r, app_name, owners, Some(list)),
    ensures
        ({
            let counts = |i: int|
                {
                    let entry = list@[i];
                    &&& 0 <= i < list@.len()
                    &&& entry.owner_pid is Some
                    &&& exists|o: int|
                        0 <= o < owners.len() && (#[trigger] owners[o]).0
                            == entry.owner_pid->0.value as i32
                    &&& entry.layer is None || entry.layer->0.value == 0
                    &&& entry.bounds is Some
                    &&& entry.bounds->0.width is Some && entry.bounds->0.width->0.value >= 100
                    &&& entry.bounds->0.height is Some && entry.bounds->0.height->0.value >= 100
                    &&& entry.number is Some
                };
            let dashboard = |i: int|
                list@[i].title is Some && has_part(lowercase(list@[i].title->0@), "dashboard"@)
                    || list@[i].title is None && has_part(lowercase(Seq::empty()), "dashboard"@);
            let area = |i: int|
                nearest_double(
                    (list@[i].bounds->0.width->0.value
                        * list@[i].bounds->0.height->0.value) as nat,
                ) as u64;
            &&& r is Ok <==> exists|i: int| #[trigger] counts(i)
            &&& r is Err ==> r->Err_0@ == (ErrorView::PlatformError {
                message: "no window found for "@ + app_name,
            })
            &&& r is Ok ==> {
                &&& at.len() == r->Ok_0@.len()
                &&& forall|k: int|
                    0 <= k < at.len() ==> 0 <= #[trigger] at[k] < list@.len() && r->Ok_0@[k]
                        == list@[at[k]].number->0.value as u32
                &&& forall|i: int| #[trigger]
                    at.contains(i) <==> counts(i) && (!dashboard(i) || forall|j: int| #[trigger]
                        counts(j) ==> dashboard(j))
                &&& forall|k: int, l: int|
                    0 <= k < l < at.len() ==> area(#[trigger] at[k]) < area(#[trigger] at[l]) || (
                    area(at[k]) == area(at[l]) && at[k] < at[l])
            }
        }),
{
    let entries = list@;
    let counts = |i: int|
        {
            let entry = entries[i];
            &&& 0 <= i < entries.len()
            &&& entry.owner_pid is Some
            &&& exists|o: int|
                0 <= o < owners.len() && (#[trigger] owners[o]).0
                    == entry.owner_pid->0.value as i32
            &&& entry.layer is None || entry.layer->0.value == 0
            &&& entry.bounds is Some
            &&& entry.bounds->0.width is Some && entry.bounds->0.width->0.value >= 100
            &&& entry.bounds->0.height is Some && entry.bounds->0.height->0.value >= 100
            &&& entry.number is Some
        };
    let found = capturable(entries, owners);
    let windows = untitled(found);
    let titles = lowered_titles(found);
    let cap = windows_to_capture_are_all_found(entries, owners);
    assert forall|i: int| #[trigger] cap.contains(i) <==> counts(i) by {
        if cap.contains(i) {
            let k = choose|k: int| 0 <= k < cap.len() && cap[k] == i;
            assert(0 <= cap[k] < entries.len());
        }
    }
    let dashboard = |i: int|
        entries[i].title is Some && has_part(lowercase(entries[i].title->0@), "dashboard"@)
            || entries[i].title is None && has_part(lowercase(Seq::empty()), "dashboard"@);
    assert forall|m: int| 0 <= m < cap.len() implies dashboard(#[trigger] cap[m]) == has_part(
        titles[m],
        "dashboard"@,
    ) by {
        assert(titles[m] == lowercase(found[m].1));
    }
    assert(windows.len() == cap.len() && titles.len() == cap.len());
    if found.len() == 0 {
        assert forall|i: int| !(#[trigger] counts(i)) by {
            assert(cap.contains(i) <==> counts(i));
        }
        Seq::empty()
    } else {
        assert(cap.contains(cap[0]));
        assert(counts(cap[0]));
        let order = smaller_windows_without_dashboards_first(windows, titles);
        let at = Seq::new(order.len(), |k: int| cap[order[k]]);
        assert forall|k: int| 0 <= k < at.len() implies 0 <= #[trigger] at[k] < entries.len()
            && r->Ok_0@[k] == entries[at[k]].number->0.value as u32 by {
            assert(at[k] == cap[order[k]]);
            assert(windows[order[k]] == found[order[k]].0);
        }
        let all_are = forall|j: int| #[trigger] counts(j) ==> dashboard(j);
        assert(all_are <==> forall|m: int|
            0 <= m < windows.len() ==> has_part(#[trigger] titles[m], "dashboard"@)) by {
            if all_are {
                assert forall|m: int| 0 <= m < windows.len() implies has_part(
                    #[trigger] titles[m],
                    "dashboard"@,
                ) by {
                    assert(cap.contains(cap[m]));
                    assert(counts(cap[m]));
                }
            }
            if forall|m: int| 0 <= m < windows.len() ==> has_part(#[trigger] titles[m], "dashboard"@) {
                assert forall|j: int| #[trigger] counts(j) implies dashboard(j) by {
                    assert(cap.contains(j));
                    let m = choose|m: int| 0 <= m < cap.len() && cap[m] == j;
                    assert(has_part(titles[m], "dashboard"@));
                }
            }
        }
        assert forall|i: int| #[trigger] at.contains(i) <==> counts(i) && (!dashboard(i)
            || all_are) by {
            if at.contains(i) {
                let k = choose|k: int| 0 <= k < at.len() && at[k] == i;
                let m = order[k];
                assert(cap[m] == i);
                assert(order.contains(m));
                assert(cap.contains(i));
                assert(!has_part(titles[m], "dashboard"@) || all_are);
            }
            if counts(i) && (!dashboard(i) || all_are) {
                assert(cap.contains(i));
                let m = choose|m: int| 0 <= m < cap.len() && cap[m] == i;
                assert(dashboard(cap[m]) == has_part(titles[m], "dashboard"@));
                assert(order.contains(m));
                let k = choose|k: int| 0 <= k < order.len() && order[k] == m;
                assert(at[k] == i);
            }
        }
        assert forall|k: int, l: int| 0 <= k < l < at.len() implies {
            let a = nearest_double(
                (entries[#[trigger] at[k]].bounds->0.width->0.value
                    * entries[at[k]].bounds->0.height->0.value) as nat,
            ) as u64;
            let b = nearest_double(
                (entries[#[trigger] at[l]].bounds->0.width->0.value
                    * entries[at[l]].bounds->0.height->0.value) as nat,
            ) as u64;
            a < b || (a == b && at[k] < at[l])
        } by {
            assert(at[k] == cap[order[k]] && at[l] == cap[order[l]]);
            assert(windows[order[k]] == found[order[k]].0);
            assert(windows[order[l]] == found[order[l]].0);
        }
        at
    }
}

proof fn double_unit_is_a_power(n: nat) -> (k: nat)
    ensures
        double_unit(n) == pow2(k),
    decreases n,
{
    if n < DOUBLE_LIMIT {
        lemma2_to64();
        0
    } else {
        let half = double_unit_is_a_power(n / 2);
        lemma_pow2_unfold(half + 1);
        half + 1
    }
}

/// The distance between two numbers.
pub open spec fn distance(a: nat, b: nat) -> int {
    if a <= b {
        b - a
    } else {
        a - b
    }
}

/// Rounding an area gives a double, that is a number of at most 53 binary digits followed
/// by zeros, and no double is nearer. Where another one is equally near, the one chosen is
/// the even one of the two.
pub proof fn rounding_gives_the_nearest_double(n: nat, m: nat, e: nat)
    requires
        m < 0x20_0000_0000_0000,
    ensures
        exists|a: nat, k: nat|
            a < 0x20_0000_0000_0000 && nearest_double(n) == #[trigger] (a * pow2(k)),
        distance(nearest_double(n), n) <= distance(m * pow2(e), n),
        m * pow2(e) != nearest_double(n) && distance(nearest_double(n), n) == distance(
            m * pow2(e),
            n,
        ) ==> exists|a: nat, k: nat|
            a % 2 == 0 && nearest_double(n) == #[trigger] (a * pow2(k)) && distance(
                nearest_double(n),
                m * pow2(e),
            ) == pow2(k),
{
    let u = double_unit(n);
    let k = double_unit_is_a_power(n);
    let q = n / u;
    let rest = n % u;
    let x = m * pow2(e);
    let r = nearest_double(n);
    double_unit_bounds(n);
    nearest_double_bounds(n);
    assert(n == q * u + rest && rest < u && (q + 1) * u == q * u + u) by (nonlinear_arith)
        requires
            u >= 1,
            q == n / u,
            rest == n % u,
    ;
    lemma2_to64();
    if u == 1 {
        assert(q * u == q) by (nonlinear_arith)
            requires
                u == 1,
        ;
        assert(r == n * pow2(0)) by (nonlinear_arith)
            requires
                r == n,
                pow2(0) == 1,
        ;
    } else {
        assert(x <= q * u || x >= (q + 1) * u) by {
            if e >= k {
                let f = (e - k) as nat;
                lemma_pow2_adds(f, k);
                let j = m * pow2(f);
                assert(x == j * u) by (nonlinear_arith)
                    requires
                        x == m * pow2(e),
                        pow2(e) == pow2(f) * u,
                        j == m * pow2(f),
                ;
                if j <= q {
                    assert(j * u <= q * u) by (nonlinear_arith)
                        requires
                            j <= q,
                    ;
                } else {
                    assert(j * u >= (q + 1) * u) by (nonlinear_arith)
                        requires
                            j >= q + 1,
                    ;
                }
            } else {
                let f = (k - e) as nat;
                lemma_pow2_adds(e, f);
                lemma_pow2_unfold(f);
                lemma_pow2_pos((f - 1) as nat);
                let p = pow2(e);
                assert(x <= q * u) by (nonlinear_arith)
                    requires
                        x == m * p,
                        m < 0x20_0000_0000_0000,
                        u == p * pow2(f),
                        pow2(f) >= 2,
                        q >= 0x10_0000_0000_0000,
                ;
            }
        }
        let up = 2 * rest > u || (2 * rest == u && q % 2 == 1);
        let a = if up {
            q + 1
        } else {
            q
        };
        assert(r == a * pow2(k));
        if a < 0x20_0000_0000_0000 {
            assert(r == a * pow2(k) && a < 0x20_0000_0000_0000);
        } else {
            lemma_pow2_unfold(k + 1);
            assert(r == 0x10_0000_0000_0000nat * pow2(k + 1)) by (nonlinear_arith)
                requires
                    r == a * pow2(k),
                    a == 0x20_0000_0000_0000,
                    pow2(k + 1) == 2 * pow2(k),
            ;
        }
        if x != r && distance(r, n) == distance(x, n) {
            assert(a % 2 == 0 && r == a * pow2(k) && distance(r, x) == pow2(k));
        }
    }
}

} // verus!
