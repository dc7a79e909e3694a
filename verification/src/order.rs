//! The order in which devices are shown.

use crate::bt::{self, Device, DeviceView};
use crate::text;
use vstd::prelude::*;

verus! {

/// The lower case of a text, by Unicode's tables.
pub uninterp spec fn lowercase(s: Seq<char>) -> Seq<char>;

/// `str::to_lowercase`, which maps every character through Unicode's
/// `Lowercase` tables. The contract names the result and claims only that it
/// depends on the text alone.
#[verifier::external_body]
fn to_lowercase(s: &str) -> (r: String)
    ensures
        r@ == lowercase(s@),
{
    s.to_lowercase()
}

/// Whether `a` comes before `b`: at the first character in which they differ
/// by its code, and a text before every longer one that it begins.
pub open spec fn text_less(a: Seq<char>, b: Seq<char>) -> bool
    decreases b.len(),
{
    if b.len() == 0 {
        false
    } else if a.len() == 0 {
        true
    } else if a[0] != b[0] {
        (a[0] as u32) < (b[0] as u32)
    } else {
        text_less(a.skip(1), b.skip(1))
    }
}

/// No text comes before itself.
pub proof fn lemma_less_irreflexive(a: Seq<char>)
    ensures
        !text_less(a, a),
    decreases a.len(),
{
    if a.len() > 0 {
        lemma_less_irreflexive(a.skip(1));
    }
}

/// The order of texts is transitive.
pub proof fn lemma_less_transitive(a: Seq<char>, b: Seq<char>, c: Seq<char>)
    requires
        text_less(a, b),
        text_less(b, c),
    ensures
        text_less(a, c),
    decreases c.len(),
{
    if a.len() > 0 && b.len() > 0 && c.len() > 0 && a[0] == b[0] && b[0] == c[0] {
        lemma_less_transitive(a.skip(1), b.skip(1), c.skip(1));
    }
}

/// Characters that differ have codes that differ.
proof fn lemma_codes_differ(x: char, y: char)
    requires
        x != y,
    ensures
        x as u32 != y as u32,
{
}

/// Of two texts one comes first, unless they are the same.
pub proof fn lemma_less_total(a: Seq<char>, b: Seq<char>)
    ensures
        text_less(a, b) || text_less(b, a) || a == b,
    decreases a.len(),
{
    if a.len() == 0 && b.len() == 0 {
        assert(a == b);
    } else if a.len() > 0 && b.len() > 0 && a[0] == b[0] {
        lemma_less_total(a.skip(1), b.skip(1));
        if a.skip(1) == b.skip(1) {
            assert(a == seq![a[0]] + a.skip(1));
            assert(b == seq![b[0]] + b.skip(1));
        }
    } else if a.len() > 0 && b.len() > 0 {
        lemma_codes_differ(a[0], b[0]);
    }
}

/// Whether `a` comes before `b`.
pub fn less(a: &str, b: &str) -> (r: bool)
    ensures
        r == text_less(a@, b@),
{
    let x: Vec<char> = text::chars_of(a);
    let y: Vec<char> = text::chars_of(b);
    let mut i: usize = 0;
    assert(a@.skip(0) == a@ && b@.skip(0) == b@);
    while i < x.len() && i < y.len() && x[i] == y[i]
        invariant
            x@ == a@,
            y@ == b@,
            i <= x@.len(),
            i <= y@.len(),
            text_less(a@, b@) == text_less(a@.skip(i as int), b@.skip(i as int)),
        decreases x@.len() - i,
    {
        proof {
            assert(a@.skip(i as int)[0] == a@[i as int]);
            assert(b@.skip(i as int)[0] == b@[i as int]);
            assert(a@.skip(i as int).skip(1) == a@.skip(i + 1));
            assert(b@.skip(i as int).skip(1) == b@.skip(i + 1));
        }
        i += 1;
    }
    proof {
        if i < x@.len() {
            assert(a@.skip(i as int)[0] == a@[i as int]);
        }
        if i < y@.len() {
            assert(b@.skip(i as int)[0] == b@[i as int]);
        }
    }
    if i == y.len() {
        false
    } else if i == x.len() {
        true
    } else {
        (x[i] as u32) < (y[i] as u32)
    }
}

/// Whether device `i` ranks strictly above device `j`: connected ones first,
/// then paired ones, then by key.
pub open spec fn ranks_above(
    devs: Seq<DeviceView>,
    keys: Seq<Seq<char>>,
    i: int,
    j: int,
) -> bool {
    if devs[i].connected != devs[j].connected {
        devs[i].connected
    } else if devs[i].paired != devs[j].paired {
        devs[i].paired
    } else {
        text_less(keys[i], keys[j])
    }
}

/// Whether device `i` is shown before device `j`: where neither ranks above the
/// other they keep the order that they came in.
pub open spec fn precedes(devs: Seq<DeviceView>, keys: Seq<Seq<char>>, i: int, j: int) -> bool {
    ranks_above(devs, keys, i, j) || (!ranks_above(devs, keys, j, i) && i < j)
}

/// Whether `order` lists the first `n` devices, each once, in the order in
/// which they are shown.
pub open spec fn is_ranking(
    devs: Seq<DeviceView>,
    keys: Seq<Seq<char>>,
    n: int,
    order: Seq<int>,
) -> bool {
    &&& order.len() == n
    &&& forall|k: int| 0 <= k < n ==> 0 <= #[trigger] order[k] < n
    &&& forall|d: int| 0 <= d < n ==> #[trigger] order.contains(d)
    &&& forall|a: int, b: int|
        0 <= a < b < n ==> precedes(devs, keys, #[trigger] order[a], #[trigger] order[b])
}

/// The devices in the given order.
pub open spec fn pick(devs: Seq<DeviceView>, order: Seq<int>) -> Seq<DeviceView> {
    Seq::new(order.len(), |k: int| devs[order[k]])
}

/// Ranking is transitive.
proof fn lemma_ranks_transitive(
    devs: Seq<DeviceView>,
    keys: Seq<Seq<char>>,
    i: int,
    j: int,
    k: int,
)
    ensures
        ranks_above(devs, keys, i, j) && ranks_above(devs, keys, j, k) ==> ranks_above(
            devs,
            keys,
            i,
            k,
        ),
        ranks_above(devs, keys, i, j) && !ranks_above(devs, keys, k, j) ==> ranks_above(
            devs,
            keys,
            i,
            k,
        ),
        !ranks_above(devs, keys, j, i) && ranks_above(devs, keys, j, k) ==> ranks_above(
            devs,
            keys,
            i,
            k,
        ),
        ranks_above(devs, keys, i, j) ==> !ranks_above(devs, keys, j, i),
{
    let (a, b, c) = (keys[i], keys[j], keys[k]);
    lemma_less_irreflexive(a);
    lemma_less_irreflexive(b);
    lemma_less_total(a, b);
    lemma_less_total(b, c);
    lemma_less_total(a, c);
    if text_less(a, b) && text_less(b, c) {
        lemma_less_transitive(a, b, c);
    }
    if text_less(a, b) && text_less(b, a) {
        lemma_less_transitive(a, b, a);
    }
    if text_less(c, a) && text_less(a, b) {
        lemma_less_transitive(c, a, b);
    }
    if text_less(b, c) && text_less(c, a) {
        lemma_less_transitive(b, c, a);
    }
}

/// The order in which devices are shown is transitive.
proof fn lemma_precedes_transitive(
    devs: Seq<DeviceView>,
    keys: Seq<Seq<char>>,
    i: int,
    j: int,
    k: int,
)
    requires
        precedes(devs, keys, i, j),
        precedes(devs, keys, j, k),
    ensures
        precedes(devs, keys, i, k),
{
    lemma_ranks_transitive(devs, keys, i, j, k);
    lemma_ranks_transitive(devs, keys, k, j, i);
    lemma_ranks_transitive(devs, keys, k, i, j);
    lemma_ranks_transitive(devs, keys, j, k, i);
}

/// There is only one order in which devices can be shown.
pub proof fn law_ranking_unique(
    devs: Seq<DeviceView>,
    keys: Seq<Seq<char>>,
    n: int,
    first: Seq<int>,
    second: Seq<int>,
)
    requires
        is_ranking(devs, keys, n, first),
        is_ranking(devs, keys, n, second),
    ensures
        first == second,
{
    lemma_rankings_agree(devs, keys, n, first, second, n);
    assert(first == second);
}

proof fn lemma_rankings_agree(
    devs: Seq<DeviceView>,
    keys: Seq<Seq<char>>,
    n: int,
    first: Seq<int>,
    second: Seq<int>,
    upto: int,
)
    requires
        is_ranking(devs, keys, n, first),
        is_ranking(devs, keys, n, second),
        0 <= upto <= n,
    ensures
        forall|k: int| 0 <= k < upto ==> #[trigger] first[k] == second[k],
    decreases upto,
{
    if upto > 0 {
        let i = upto - 1;
        lemma_rankings_agree(devs, keys, n, first, second, i);
        let a = first[i];
        let b = second[i];
        if a != b {
            assert(second.contains(a));
            let q = choose|q: int| 0 <= q < second.len() && second[q] == a;
            assert(first.contains(b));
            let r = choose|r: int| 0 <= r < first.len() && first[r] == b;
            if q < i {
                assert(first[q] == a);
                assert(precedes(devs, keys, first[q], first[i]));
            }
            if r < i {
                assert(second[r] == b);
                assert(precedes(devs, keys, second[r], second[i]));
            }
            lemma_ranks_transitive(devs, keys, a, a, a);
            lemma_ranks_transitive(devs, keys, b, b, b);
            lemma_ranks_transitive(devs, keys, a, b, a);
            assert(q > i && r > i);
            assert(precedes(devs, keys, second[i], second[q]));
            assert(precedes(devs, keys, first[i], first[r]));
            assert(false);
        }
    }
}

/// Indices as mathematical integers.
pub open spec fn ints(v: Seq<usize>) -> Seq<int> {
    Seq::new(v.len(), |i: int| v[i] as int)
}

/// A ranking stays one when the next device goes before the first that it
/// ranks above.
proof fn lemma_insert(
    devs: Seq<DeviceView>,
    keys: Seq<Seq<char>>,
    n: int,
    order: Seq<int>,
    p: int,
)
    requires
        0 <= p <= n,
        is_ranking(devs, keys, n, order),
        forall|a: int| 0 <= a < p ==> !ranks_above(devs, keys, n, #[trigger] order[a]),
        p < n ==> ranks_above(devs, keys, n, order[p]),
    ensures
        is_ranking(devs, keys, n + 1, order.insert(p, n)),
{
    let next = order.insert(p, n);
    assert forall|d: int| 0 <= d < n + 1 implies #[trigger] next.contains(d) by {
        if d == n {
            assert(next[p] == n);
        } else {
            assert(order.contains(d));
            let q = choose|q: int| 0 <= q < order.len() && order[q] == d;
            if q < p {
                assert(next[q] == d);
            } else {
                assert(next[q + 1] == d);
            }
        }
    }
    assert forall|a: int, b: int| 0 <= a < b < n + 1 implies precedes(
        devs,
        keys,
        #[trigger] next[a],
        #[trigger] next[b],
    ) by {
        let x = if a < p {
            a
        } else {
            a - 1
        };
        let y = if b < p {
            b
        } else {
            b - 1
        };
        if a == p {
            assert(next[b] == order[y]);
            assert(precedes(devs, keys, n, order[p]));
            if y > p {
                assert(precedes(devs, keys, order[p], order[y]));
                lemma_precedes_transitive(devs, keys, n, order[p], order[y]);
            }
        } else if b == p {
            assert(next[a] == order[a]);
        } else {
            assert(next[a] == order[x] && next[b] == order[y]);
        }
    }
}

/// Whether device `i` ranks strictly above device `j`.
fn above(devs: &Vec<Device>, keys: &Vec<String>, i: usize, j: usize) -> (r: bool)
    requires
        i < devs@.len(),
        j < devs@.len(),
        devs@.len() == keys@.len(),
    ensures
        r == ranks_above(bt::device_views(devs@), text::texts(keys@), i as int, j as int),
{
    if devs[i].connected != devs[j].connected {
        devs[i].connected
    } else if devs[i].paired != devs[j].paired {
        devs[i].paired
    } else {
        less(keys[i].as_str(), keys[j].as_str())
    }
}

/// The order in which devices are shown, given the key of each.
pub fn device_order(devs: &Vec<Device>, keys: &Vec<String>) -> (r: Vec<usize>)
    requires
        devs@.len() == keys@.len(),
    ensures
        is_ranking(
            bt::device_views(devs@),
            text::texts(keys@),
            devs@.len() as int,
            ints(r@),
        ),
{
    let ghost dv = bt::device_views(devs@);
    let ghost kv = text::texts(keys@);
    let mut r: Vec<usize> = Vec::new();
    let mut n: usize = 0;
    while n < devs.len()
        invariant
            n <= devs@.len(),
            devs@.len() == keys@.len(),
            dv == bt::device_views(devs@),
            kv == text::texts(keys@),
            is_ranking(dv, kv, n as int, ints(r@)),
        decreases devs@.len() - n,
    {
        let mut p: usize = 0;
        assert(r@.len() == ints(r@).len());
        assert forall|i: int| 0 <= i < n implies #[trigger] r@[i] < n by {
            assert(ints(r@)[i] == r@[i]);
        }
        while p < n && !above(devs, keys, n, r[p])
            invariant
                p <= n < devs@.len(),
                devs@.len() == keys@.len(),
                r@.len() == n,
                dv == bt::device_views(devs@),
                kv == text::texts(keys@),
                is_ranking(dv, kv, n as int, ints(r@)),
                forall|i: int| 0 <= i < n ==> #[trigger] r@[i] < n,
                forall|a: int| 0 <= a < p ==> !ranks_above(dv, kv, n as int, #[trigger] ints(r@)[a]),
            decreases n - p,
        {
            assert(ints(r@)[p as int] == r@[p as int]);
            p += 1;
        }
        let ghost before = ints(r@);
        proof {
            if p < n {
                assert(before[p as int] == r@[p as int]);
            }
            lemma_insert(dv, kv, n as int, before, p as int);
        }
        r.insert(p, n);
        assert(ints(r@) == before.insert(p as int, n as int));
        n += 1;
    }
    r
}

/// Whether `r` is what `devs` look like when they are shown: connected ones
/// first, then paired ones, then by key, and otherwise as they came.
pub open spec fn shown(
    devs: Seq<DeviceView>,
    keys: Seq<Seq<char>>,
    r: Seq<DeviceView>,
) -> bool {
    exists|order: Seq<int>| #[trigger]
        is_ranking(devs, keys, devs.len() as int, order) && r == pick(devs, order)
}

/// What devices look like when they are shown is unique.
pub proof fn law_shown_unique(
    devs: Seq<DeviceView>,
    keys: Seq<Seq<char>>,
    first: Seq<DeviceView>,
    second: Seq<DeviceView>,
)
    requires
        shown(devs, keys, first),
        shown(devs, keys, second),
    ensures
        first == second,
{
    let n = devs.len() as int;
    let a = choose|order: Seq<int>| #[trigger]
        is_ranking(devs, keys, n, order) && first == pick(devs, order);
    let b = choose|order: Seq<int>| #[trigger]
        is_ranking(devs, keys, n, order) && second == pick(devs, order);
    law_ranking_unique(devs, keys, n, a, b);
}

/// Showing devices drops none and adds none. The connected ones come first, and
/// of those that are alike in this the paired ones come first.
pub proof fn law_shown_in_order(
    devs: Seq<DeviceView>,
    keys: Seq<Seq<char>>,
    r: Seq<DeviceView>,
)
    requires
        shown(devs, keys, r),
    ensures
        r.len() == devs.len(),
        forall|i: int| 0 <= i < devs.len() ==> r.contains(#[trigger] devs[i]),
        forall|k: int| 0 <= k < r.len() ==> devs.contains(#[trigger] r[k]),
        forall|a: int, b: int|
            0 <= a < b < r.len() && #[trigger] r[b].connected ==> #[trigger] r[a].connected,
        forall|a: int, b: int|
            0 <= a < b < r.len() && r[a].connected == r[b].connected && #[trigger] r[b].paired
                ==> #[trigger] r[a].paired,
{
    let n = devs.len() as int;
    let order = choose|order: Seq<int>| #[trigger]
        is_ranking(devs, keys, n, order) && r == pick(devs, order);
    assert forall|i: int| 0 <= i < devs.len() implies r.contains(#[trigger] devs[i]) by {
        assert(order.contains(i));
        let q = choose|q: int| 0 <= q < order.len() && order[q] == i;
        assert(r[q] == devs[i]);
    }
    assert forall|k: int| 0 <= k < r.len() implies devs.contains(#[trigger] r[k]) by {
        assert(r[k] == devs[order[k]]);
    }
    assert forall|a: int, b: int| 0 <= a < b < r.len() implies precedes(
        devs,
        keys,
        #[trigger] order[a],
        #[trigger] order[b],
    ) by {}
    assert forall|a: int, b: int| 0 <= a < b < r.len() && #[trigger] r[b].connected implies
        #[trigger] r[a].connected by {
        assert(precedes(devs, keys, order[a], order[b]));
    }
    assert forall|a: int, b: int|
        0 <= a < b < r.len() && r[a].connected == r[b].connected && #[trigger] r[b].paired implies
        #[trigger] r[a].paired by {
        assert(precedes(devs, keys, order[a], order[b]));
    }
}

/// Puts devices in the order in which they are shown, given the key of each.
pub fn sort_devices(devs: &Vec<Device>, keys: &Vec<String>) -> (r: Vec<Device>)
    requires
        devs@.len() == keys@.len(),
    ensures
        shown(bt::device_views(devs@), text::texts(keys@), bt::device_views(r@)),
{
    let order: Vec<usize> = device_order(devs, keys);
    let ghost dv = bt::device_views(devs@);
    let ghost ov = ints(order@);
    assert(ov.len() == order@.len());
    let mut r: Vec<Device> = Vec::new();
    let mut k: usize = 0;
    while k < order.len()
        invariant
            k <= order@.len(),
            order@.len() == devs@.len(),
            r@.len() == k,
            dv == bt::device_views(devs@),
            ov == ints(order@),
            forall|i: int| 0 <= i < devs@.len() ==> 0 <= #[trigger] ov[i] < devs@.len(),
            forall|i: int| 0 <= i < k ==> #[trigger] r@[i]@ == dv[ov[i]],
        decreases order@.len() - k,
    {
        assert(ov[k as int] == order@[k as int]);
        r.push(devs[order[k]].clone());
        k += 1;
    }
    proof {
        assert(bt::device_views(r@) == pick(dv, ov));
        assert(dv.len() == devs@.len());
        assert(is_ranking(dv, text::texts(keys@), dv.len() as int, ov));
    }
    r
}

/// One device as `bluetoothctl` reports it: its line of `devices`, and the
/// output of `info`.
pub struct Listing {
    pub mac: String,
    pub name: String,
    pub info: String,
}

/// The devices that the given reports describe.
pub open spec fn described_all(v: Seq<Listing>) -> Seq<DeviceView> {
    Seq::new(v.len(), |i: int| bt::described(v[i].mac@, v[i].name@, v[i].info@))
}

/// The keys by which devices are ordered: their names in lower case.
pub open spec fn name_keys(devs: Seq<DeviceView>) -> Seq<Seq<char>> {
    Seq::new(devs.len(), |i: int| lowercase(devs[i].name))
}

/// Of devices that are alike in being connected and in being paired, the names
/// ascend, whatever their case.
pub proof fn law_shown_by_name(devs: Seq<DeviceView>, r: Seq<DeviceView>, a: int, b: int)
    requires
        shown(devs, name_keys(devs), r),
        0 <= a < b < r.len(),
        r[a].connected == r[b].connected,
        r[a].paired == r[b].paired,
    ensures
        !text_less(lowercase(r[b].name), lowercase(r[a].name)),
{
    let order = choose|order: Seq<int>| #[trigger]
        is_ranking(devs, name_keys(devs), devs.len() as int, order) && r == pick(devs, order);
    let (i, j) = (order[a], order[b]);
    assert(precedes(devs, name_keys(devs), i, j));
    lemma_ranks_transitive(devs, name_keys(devs), i, j, i);
}

/// Devices that are in the order in which they are shown stay as they are.
pub proof fn law_shown_again(devs: Seq<DeviceView>, r: Seq<DeviceView>)
    requires
        shown(devs, name_keys(devs), r),
    ensures
        shown(r, name_keys(r), r),
{
    let n = devs.len() as int;
    let order = choose|order: Seq<int>| #[trigger]
        is_ranking(devs, name_keys(devs), n, order) && r == pick(devs, order);
    let same = Seq::new(r.len(), |k: int| k);
    assert forall|a: int, b: int| 0 <= a < b < n implies precedes(
        r,
        name_keys(r),
        #[trigger] same[a],
        #[trigger] same[b],
    ) by {
        assert(precedes(devs, name_keys(devs), order[a], order[b]));
    }
    assert forall|d: int| 0 <= d < n implies #[trigger] same.contains(d) by {
        assert(same[d] == d);
    }
    assert(is_ranking(r, name_keys(r), n, same));
    assert(r == pick(r, same));
}

/// The devices that the given reports describe, in the order in which they are
/// shown.
pub fn list_devices(listings: &Vec<Listing>) -> (r: Vec<Device>)
    ensures
        shown(
            described_all(listings@),
            name_keys(described_all(listings@)),
            bt::device_views(r@),
        ),
{
    let ghost want = described_all(listings@);
    let mut devs: Vec<Device> = Vec::new();
    let mut keys: Vec<String> = Vec::new();
    let mut i: usize = 0;
    while i < listings.len()
        invariant
            i <= listings@.len(),
            devs@.len() == i,
            keys@.len() == i,
            want == described_all(listings@),
            forall|j: int| 0 <= j < i ==> #[trigger] devs@[j]@ == want[j],
            forall|j: int| 0 <= j < i ==> #[trigger] keys@[j]@ == lowercase(want[j].name),
        decreases listings@.len() - i,
    {
        let l: &Listing = &listings[i];
        let d: Device = bt::device_info(l.mac.as_str(), l.name.as_str(), l.info.as_str());
        keys.push(to_lowercase(d.name.as_str()));
        devs.push(d);
        i += 1;
    }
    assert(bt::device_views(devs@) == want);
    assert(text::texts(keys@) == name_keys(want));
    sort_devices(&devs, &keys)
}

// ---- what the order is for --------------------------------------------------
/// A text comes before another exactly where it is the beginning of it, or where
/// at the first place in which they differ its character has the smaller code.
pub proof fn law_text_order(a: Seq<char>, b: Seq<char>)
    ensures
        text_less(a, b) <==> exists|k: int|
            0 <= k <= a.len() && k <= b.len() && #[trigger] a.take(k) == b.take(k) && (if k < a.len()
                && k < b.len() {
                (a[k] as u32) < (b[k] as u32)
            } else {
                k < b.len()
            }),
    decreases b.len(),
{
    let differs = |k: int|
        if k < a.len() && k < b.len() {
            (a[k] as u32) < (b[k] as u32)
        } else {
            k < b.len()
        };
    if a.len() > 0 && b.len() > 0 && a[0] == b[0] {
        let (x, y) = (a.skip(1), b.skip(1));
        law_text_order(x, y);
        if text_less(a, b) {
            let k = choose|k: int|
                0 <= k <= x.len() && k <= y.len() && #[trigger] x.take(k) == y.take(k) && (if k
                    < x.len() && k < y.len() {
                    (x[k] as u32) < (y[k] as u32)
                } else {
                    k < y.len()
                });
            assert(a.take(k + 1) == seq![a[0]] + x.take(k));
            assert(b.take(k + 1) == seq![b[0]] + y.take(k));
            if k < x.len() && k < y.len() {
                assert(a[k + 1] == x[k] && b[k + 1] == y[k]);
            }
            assert(a.take(k + 1) == b.take(k + 1) && differs(k + 1));
        }
        if exists|k: int|
            0 <= k <= a.len() && k <= b.len() && #[trigger] a.take(k) == b.take(k) && (if k < a.len()
                && k < b.len() {
                (a[k] as u32) < (b[k] as u32)
            } else {
                k < b.len()
            }) {
            let k = choose|k: int|
                0 <= k <= a.len() && k <= b.len() && #[trigger] a.take(k) == b.take(k) && (if k
                    < a.len() && k < b.len() {
                    (a[k] as u32) < (b[k] as u32)
                } else {
                    k < b.len()
                });
            assert(k > 0);
            assert(x.take(k - 1) == a.take(k).skip(1));
            assert(y.take(k - 1) == b.take(k).skip(1));
            if k < a.len() && k < b.len() {
                assert(x[k - 1] == a[k] && y[k - 1] == b[k]);
            }
            assert(x.take(k - 1) == y.take(k - 1));
        }
    } else {
        assert(a.take(0) == b.take(0));
        assert forall|k: int|
            0 < k <= a.len() && k <= b.len() && #[trigger] a.take(k) == b.take(k) implies false by {
            assert(a.take(k)[0] == a[0] && b.take(k)[0] == b[0]);
        }
        if text_less(a, b) {
            assert(differs(0));
        }
    }
}

/// The list of devices is what it should be: every device once, connected ones
/// before the others, among these paired ones before the others, among these by
/// name whatever the case, and devices that are alike in all of this in the order
/// in which they came.
pub proof fn law_devices_in_order(devs: Seq<DeviceView>, r: Seq<DeviceView>)
    requires
        shown(devs, name_keys(devs), r),
    ensures
        exists|from: Seq<int>|
            {
                &&& #[trigger] from.len() == devs.len() && r.len() == devs.len()
                &&& from.no_duplicates()
                &&& forall|k: int| 0 <= k < r.len() ==> 0 <= #[trigger] from[k] < devs.len()
                &&& forall|k: int| 0 <= k < r.len() ==> #[trigger] r[k] == devs[from[k]]
                &&& forall|a: int, b: int|
                    0 <= a < b < r.len() ==> {
                        let (x, y) = (#[trigger] r[a], #[trigger] r[b]);
                        let (m, n) = (lowercase(x.name), lowercase(y.name));
                        ||| x.connected && !y.connected
                        ||| x.connected == y.connected && x.paired && !y.paired
                        ||| x.connected == y.connected && x.paired == y.paired && text_less(m, n)
                        ||| x.connected == y.connected && x.paired == y.paired && m == n && from[a]
                            < from[b]
                    }
            },
{
    let keys = name_keys(devs);
    let n = devs.len() as int;
    let from = choose|order: Seq<int>| #[trigger]
        is_ranking(devs, keys, n, order) && r == pick(devs, order);
    assert forall|a: int, b: int| 0 <= a < b < r.len() implies {
        let (x, y) = (#[trigger] r[a], #[trigger] r[b]);
        let (m, n) = (lowercase(x.name), lowercase(y.name));
        ||| x.connected && !y.connected
        ||| x.connected == y.connected && x.paired && !y.paired
        ||| x.connected == y.connected && x.paired == y.paired && text_less(m, n)
        ||| x.connected == y.connected && x.paired == y.paired && m == n && from[a] < from[b]
    } by {
        assert(precedes(devs, keys, from[a], from[b]));
        lemma_less_total(keys[from[a]], keys[from[b]]);
    }
    assert forall|a: int, b: int| 0 <= a < n && 0 <= b < n && a != b implies from[a] != from[b] by {
        let (x, y) = if a < b {
            (a, b)
        } else {
            (b, a)
        };
        assert(precedes(devs, keys, from[x], from[y]));
        lemma_ranks_transitive(devs, keys, from[x], from[x], from[x]);
    }
    assert(from.no_duplicates());
    assert(from.len() == devs.len());
}

/// The devices that are listed are the ones that were reported, each with its own
/// report.
pub proof fn law_reports_are_read_apart(v: Seq<Listing>, i: int)
    ensures
        described_all(v).len() == v.len(),
        0 <= i < v.len() ==> described_all(v)[i] == bt::described(
            v[i].mac@,
            v[i].name@,
            v[i].info@,
        ),
{
}

} // verus!
