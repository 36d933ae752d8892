//! The order of buffers and of lines.
use vstd::prelude::*;
use crate::models::{Buffer, BufferView, Line, LineView};
use crate::seqs::{
    at_places, first_from, first_index, is_sorted, is_total_preorder, last_index,
    lemma_filter_parts, lemma_filter_take, lemma_first_from, lemma_last_index,
    lemma_sorted_by_permutation, lemma_sorted_by_sorted, lemma_sorted_by_stable,
    lemma_sorted_unique_by_key, pick_all, sorted_by, sorted_places, stable_sort, views,
};
use crate::text::{
    lemma_split_on_len, lemma_text_le_total, lemma_text_le_transitive, opt_index, same_text,
    split_on, str_le, str_split, text_le, texts,
};
use crate::time::at_or_before;

verus! {

// ---------------------------------------------------------------------------
// Lines
// ---------------------------------------------------------------------------

pub open spec fn line_at_or_before(a: LineView, b: LineView) -> bool {
    at_or_before(a.timestamp, b.timestamp)
}

/// The lines, oldest first.
pub open spec fn chronological(lines: Seq<LineView>) -> Seq<LineView> {
    sorted_by(lines, |a: LineView, b: LineView| line_at_or_before(a, b))
}

/// No line stands after a later one.
pub open spec fn is_chronological(lines: Seq<LineView>) -> bool {
    is_sorted(lines, |a: LineView, b: LineView| line_at_or_before(a, b))
}

/// Puts the lines in the order of their times. Lines of one time keep the
/// order in which the relay sent them.
pub fn sort_lines_chronologically(lines: &mut Vec<Line>)
    ensures
        views(final(lines)@) == chronological(views(old(lines)@)),
        final(lines)@.len() == old(lines)@.len(),
{
    let mut all: Vec<Line> = Vec::new();
    core::mem::swap(lines, &mut all);
    let compare = |a: &Line, b: &Line| -> (r: bool)
        ensures
            r == line_at_or_before(a@, b@),
        { a.timestamp.at_or_before(b.timestamp) };
    *lines = stable_sort(
        all,
        compare,
        Ghost(|a: LineView, b: LineView| line_at_or_before(a, b)),
    );
}

/// Sorted lines are in the order of their times, they are the lines that were
/// there, and lines of one time stay in the order in which they came.
pub proof fn chronological_order_is_stable(lines: Seq<LineView>)
    ensures
        is_chronological(chronological(lines)),
        chronological(lines).to_multiset() == lines.to_multiset(),
        chronological(lines).len() == lines.len(),
        forall|secs: i64, nanos: u32|
            #![trigger at_time(lines, secs, nanos)]
            at_time(chronological(lines), secs, nanos) == at_time(lines, secs, nanos),
{
    let le = |a: LineView, b: LineView| line_at_or_before(a, b);
    lemma_sorted_by_permutation(lines, le);
    assert(is_total_preorder(le));
    lemma_sorted_by_sorted(lines, le);
    assert forall|secs: i64, nanos: u32|
        #![trigger at_time(lines, secs, nanos)]
        at_time(chronological(lines), secs, nanos) == at_time(lines, secs, nanos) by {
        let p = |l: LineView| l.timestamp.secs == secs && l.timestamp.nanos == nanos;
        lemma_sorted_by_stable(lines, le, p);
    }
}

/// The lines of one time.
pub open spec fn at_time(lines: Seq<LineView>, secs: i64, nanos: u32) -> Seq<LineView> {
    lines.filter(|l: LineView| l.timestamp.secs == secs && l.timestamp.nanos == nanos)
}

// ---------------------------------------------------------------------------
// Groups
// ---------------------------------------------------------------------------

/// The connection and the server that a buffer belongs to.
pub struct GroupKey {
    pub connection: String,
    pub server: String,
}

impl View for GroupKey {
    type V = (Seq<char>, Seq<char>);

    open spec fn view(&self) -> (Seq<char>, Seq<char>) {
        (self.connection@, self.server@)
    }
}

pub open spec fn connection_of(id: Seq<char>) -> Seq<char> {
    split_on(id, '/')[0]
}

pub open spec fn group_key(b: BufferView) -> (Seq<char>, Seq<char>) {
    (connection_of(b.id), b.server)
}

/// A buffer that heads its group.
pub open spec fn is_root(b: BufferView) -> bool {
    b.kind == "server"@ || b.kind == "core"@
}

/// What stands before the first slash of a buffer's id.
pub fn connection_part(id: &str) -> (connection: String)
    ensures
        connection@ == connection_of(id@),
{
    let parts = str_split(id, '/');
    proof {
        lemma_split_on_len(id@, '/');
        assert(texts(parts@)[0] == parts@[0]@);
    }
    parts[0].clone()
}

pub fn buffer_group_key(buffer: &Buffer) -> (key: GroupKey)
    ensures
        key@ == group_key(buffer@),
{
    GroupKey { connection: connection_part(buffer.id.as_str()), server: buffer.server.clone() }
}

pub fn is_group_root(buffer: &Buffer) -> (yes: bool)
    ensures
        yes == is_root(buffer@),
{
    same_text(buffer.kind.as_str(), "server") || same_text(buffer.kind.as_str(), "core")
}

fn same_key(a: &GroupKey, b: &GroupKey) -> (same: bool)
    ensures
        same == (a@ == b@),
{
    same_text(a.connection.as_str(), b.connection.as_str()) && same_text(
        a.server.as_str(),
        b.server.as_str(),
    )
}

/// The buffers that are rows of their own, which threads are not.
pub open spec fn rows(buffers: Seq<BufferView>) -> Seq<BufferView> {
    buffers.filter(|b: BufferView| !b.is_thread())
}

/// Every group stands together, and in each the roots come first.
#[verifier::opaque]
pub open spec fn grouped(list: Seq<BufferView>) -> bool {
    &&& forall|i: int, j: int, k: int|
        0 <= i < j < k < list.len() && group_key(#[trigger] list[i]) == group_key(
            #[trigger] list[k],
        ) ==> group_key(#[trigger] list[j]) == group_key(list[i])
    &&& forall|i: int, j: int|
        0 <= i < j < list.len() && group_key(#[trigger] list[i]) == group_key(#[trigger] list[j])
            && is_root(list[j]) ==> is_root(list[i])
}

pub open spec fn groups_valid(buffers: Seq<BufferView>) -> bool {
    grouped(rows(buffers))
}

/// Whether every group of buffers stands together with its roots first.
/// Threads do not count.
pub fn buffer_groups_are_valid(buffers: &Vec<Buffer>) -> (valid: bool)
    ensures
        valid == groups_valid(views(buffers@)),
{
    let ghost all = views(buffers@);
    let ghost is_row = |b: BufferView| !b.is_thread();
    let ghost list = rows(all);
    let mut keys: Vec<GroupKey> = Vec::new();
    let mut roots: Vec<bool> = Vec::new();
    let mut n: usize = 0;
    proof {
        reveal(Seq::filter);
    }
    assert(all.take(0).filter(is_row) =~= Seq::empty());
    while n < buffers.len()
        invariant
            n <= buffers@.len(),
            all == views(buffers@),
            is_row == (|b: BufferView| !b.is_thread()),
            keys@.len() == roots@.len(),
            keys@.len() == all.take(n as int).filter(is_row).len(),
            forall|i: int|
                0 <= i < keys@.len() ==> #[trigger] keys@[i]@ == group_key(
                    all.take(n as int).filter(is_row)[i],
                ),
            forall|i: int|
                0 <= i < keys@.len() ==> #[trigger] roots@[i] == is_root(
                    all.take(n as int).filter(is_row)[i],
                ),
        decreases buffers@.len() - n,
    {
        proof {
            lemma_filter_take(all, n as int, is_row);
            assert(all[n as int] == buffers@[n as int]@);
        }
        if !buffers[n].is_matrix_thread() {
            keys.push(buffer_group_key(&buffers[n]));
            roots.push(is_group_root(&buffers[n]));
        }
        n = n + 1;
    }
    assert(all.take(n as int) =~= all);
    let mut has_child = false;
    // Where the first buffer of each group stands.
    let mut starts: Vec<usize> = Vec::new();
    let mut i: usize = 0;
    assert(grouped(list.take(0))) by {
        reveal(grouped);
    }
    while i < keys.len()
        invariant
            i <= keys@.len(),
            keys@.len() == roots@.len(),
            keys@.len() == list.len(),
            list == rows(all),
            all == views(buffers@),
            forall|k: int| 0 <= k < keys@.len() ==> #[trigger] keys@[k]@ == group_key(list[k]),
            forall|k: int| 0 <= k < keys@.len() ==> #[trigger] roots@[k] == is_root(list[k]),
            grouped(list.take(i as int)),
            forall|s: int| 0 <= s < starts@.len() ==> (#[trigger] starts@[s]) < i,
            forall|a: int| 0 <= a < i ==> #[trigger] key_started(list, starts@, a),
            i > 0 ==> has_child == group_has_child(list, i as int, group_key(list[i - 1])),
        decreases keys@.len() - i,
    {
        let ghost key = group_key(list[i as int]);
        assert(keys@[i as int]@ == key);
        let same_group = i > 0 && same_key(&keys[i - 1], &keys[i]);
        if !same_group {
            let known = key_among(&keys, &starts, i, Ghost(list));
            if known {
                proof {
                    let a = choose|a: int| 0 <= a < i && group_key(list[a]) == key;
                    assert(i > 0);
                    assert(keys@[i - 1]@ == group_key(list[i - 1]));
                    assert(a < i - 1);
                    lemma_torn(list, a, i - 1, i as int);
                }
                return false;
            }
            let ghost before = starts@;
            starts.push(i);
            has_child = false;
            proof {
                assert forall|a: int| 0 <= a < i implies group_key(#[trigger] list[a]) != key by {
                    assert(key_started(list, before, a));
                    let t = choose|t: int|
                        0 <= t < before.len() && group_key(list[#[trigger] before[t] as int])
                            == group_key(list[a]);
                    assert(group_key(list[before[t] as int]) != key);
                }
                lemma_grouped_new(list, i as int);
                assert forall|a: int| 0 <= a < i + 1 implies #[trigger] key_started(
                    list,
                    starts@,
                    a,
                ) by {
                    if a < i {
                        assert(key_started(list, before, a));
                        let t = choose|t: int|
                            0 <= t < before.len() && group_key(list[#[trigger] before[t] as int])
                                == group_key(list[a]);
                        assert(starts@[t] == before[t]);
                    } else {
                        assert(starts@[starts@.len() - 1] == i);
                    }
                }
                assert(!group_has_child(list, i as int, key));
            }
        } else {
            proof {
                assert(keys@[i - 1]@ == group_key(list[i - 1]));
                assert(group_key(list[i - 1]) == key);
                assert forall|a: int| 0 <= a < i + 1 implies #[trigger] key_started(
                    list,
                    starts@,
                    a,
                ) by {
                    if a == i {
                        assert(key_started(list, starts@, i - 1));
                        let t = choose|t: int|
                            0 <= t < starts@.len() && group_key(list[#[trigger] starts@[t] as int])
                                == group_key(list[i - 1]);
                        assert(group_key(list[starts@[t] as int]) == key);
                    }
                }
            }
        }
        assert(roots@[i as int] == is_root(list[i as int]));
        if roots[i] && has_child {
            proof {
                let a = choose|a: int|
                    0 <= a < i && group_key(#[trigger] list[a]) == key && !is_root(list[a]);
                lemma_late_root(list, a, i as int);
            }
            return false;
        }
        proof {
            if same_group {
                lemma_grouped_same(list, i as int);
            }
            let more = has_child || !roots@[i as int];
            assert(more == group_has_child(list, i + 1, key)) by {
                if has_child {
                    let a = choose|a: int|
                        0 <= a < i && group_key(#[trigger] list[a]) == key && !is_root(list[a]);
                    assert(group_key(list[a]) == key);
                }
                if !is_root(list[i as int]) {
                    assert(group_key(list[i as int]) == key);
                }
            }
        }
        has_child = has_child || !roots[i];
        i = i + 1;
    }
    assert(list.take(i as int) =~= list);
    true
}

/// Whether one of the places holds a buffer of the group of the one at `a`.
spec fn key_started(list: Seq<BufferView>, starts: Seq<usize>, a: int) -> bool {
    exists|t: int|
        0 <= t < starts.len() && group_key(list[#[trigger] starts[t] as int]) == group_key(list[a])
}

/// Whether one of the first `n` buffers is a child of the group.
spec fn group_has_child(list: Seq<BufferView>, n: int, key: (Seq<char>, Seq<char>)) -> bool {
    exists|a: int| 0 <= a < n && group_key(#[trigger] list[a]) == key && !is_root(list[a])
}

fn key_among(
    keys: &Vec<GroupKey>,
    starts: &Vec<usize>,
    i: usize,
    Ghost(list): Ghost<Seq<BufferView>>,
) -> (known: bool)
    requires
        i < keys@.len(),
        keys@.len() == list.len(),
        forall|k: int| 0 <= k < keys@.len() ==> #[trigger] keys@[k]@ == group_key(list[k]),
        forall|s: int| 0 <= s < starts@.len() ==> (#[trigger] starts@[s]) < i,
    ensures
        known ==> exists|a: int| 0 <= a < i && group_key(list[a]) == group_key(list[i as int]),
        !known ==> forall|s: int|
            0 <= s < starts@.len() ==> group_key(list[#[trigger] starts@[s] as int]) != group_key(
                list[i as int],
            ),
{
    let mut s: usize = 0;
    while s < starts.len()
        invariant
            s <= starts@.len(),
            i < keys@.len(),
            keys@.len() == list.len(),
            forall|k: int| 0 <= k < keys@.len() ==> #[trigger] keys@[k]@ == group_key(list[k]),
            forall|s: int| 0 <= s < starts@.len() ==> (#[trigger] starts@[s]) < i,
            forall|t: int|
                0 <= t < s ==> group_key(list[#[trigger] starts@[t] as int]) != group_key(
                    list[i as int],
                ),
        decreases starts@.len() - s,
    {
        assert(keys@[starts@[s as int] as int]@ == group_key(list[starts@[s as int] as int]));
        assert(keys@[i as int]@ == group_key(list[i as int]));
        if same_key(&keys[starts[s]], &keys[i]) {
            return true;
        }
        s = s + 1;
    }
    false
}

proof fn lemma_torn(list: Seq<BufferView>, i: int, j: int, k: int)
    requires
        0 <= i < j < k < list.len(),
        group_key(list[i]) == group_key(list[k]),
        group_key(list[j]) != group_key(list[i]),
    ensures
        !grouped(list),
{
    reveal(grouped);
}

proof fn lemma_late_root(list: Seq<BufferView>, i: int, j: int)
    requires
        0 <= i < j < list.len(),
        group_key(list[i]) == group_key(list[j]),
        is_root(list[j]),
        !is_root(list[i]),
    ensures
        !grouped(list),
{
    reveal(grouped);
}

proof fn lemma_grouped_new(list: Seq<BufferView>, n: int)
    requires
        0 <= n < list.len(),
        grouped(list.take(n)),
        forall|a: int| 0 <= a < n ==> group_key(#[trigger] list[a]) != group_key(list[n]),
    ensures
        grouped(list.take(n + 1)),
{
    reveal(grouped);
    let s = list.take(n);
    let t = list.take(n + 1);
    assert forall|i: int, j: int, k: int|
        0 <= i < j < k < t.len() && group_key(#[trigger] t[i]) == group_key(
            #[trigger] t[k],
        ) implies group_key(#[trigger] t[j]) == group_key(t[i]) by {
        if k == n {
            assert(group_key(list[i]) != group_key(list[n]));
        } else {
            assert(group_key(s[j]) == group_key(s[i])) by {
                assert(group_key(s[i]) == group_key(s[k]));
            }
        }
    }
    assert forall|i: int, j: int|
        0 <= i < j < t.len() && group_key(#[trigger] t[i]) == group_key(#[trigger] t[j]) && is_root(
            t[j],
        ) implies is_root(t[i]) by {
        if j == n {
            assert(group_key(list[i]) != group_key(list[n]));
        } else {
            assert(group_key(s[i]) == group_key(s[j]));
        }
    }
}

proof fn lemma_grouped_same(list: Seq<BufferView>, n: int)
    requires
        0 < n < list.len(),
        grouped(list.take(n)),
        group_key(list[n - 1]) == group_key(list[n]),
        is_root(list[n]) ==> !group_has_child(list, n, group_key(list[n])),
    ensures
        grouped(list.take(n + 1)),
{
    reveal(grouped);
    let s = list.take(n);
    let t = list.take(n + 1);
    assert forall|i: int, j: int, k: int|
        0 <= i < j < k < t.len() && group_key(#[trigger] t[i]) == group_key(
            #[trigger] t[k],
        ) implies group_key(#[trigger] t[j]) == group_key(t[i]) by {
        let k2 = if k == n {
            n - 1
        } else {
            k
        };
        assert(group_key(s[i]) == group_key(s[k2]));
        if j < k2 {
            assert(group_key(s[j]) == group_key(s[i]));
        }
    }
    assert forall|i: int, j: int|
        0 <= i < j < t.len() && group_key(#[trigger] t[i]) == group_key(#[trigger] t[j]) && is_root(
            t[j],
        ) implies is_root(t[i]) by {
        if j == n {
            assert(group_key(list[i]) == group_key(list[n]));
        } else {
            assert(group_key(s[i]) == group_key(s[j]));
        }
    }
}

// ---------------------------------------------------------------------------
// The order that the relay's list is shown in
// ---------------------------------------------------------------------------

/// By server, roots first, then by number.
pub open spec fn buffer_at_or_before(a: BufferView, b: BufferView) -> bool {
    if a.server != b.server {
        text_le(a.server, b.server)
    } else if is_root(a) != is_root(b) {
        is_root(a)
    } else {
        a.number <= b.number
    }
}

pub open spec fn natural_order(buffers: Seq<BufferView>) -> Seq<BufferView> {
    sorted_by(buffers, |a: BufferView, b: BufferView| buffer_at_or_before(a, b))
}

/// Puts the buffers in the order of their servers, the roots of each server
/// first, and otherwise by number.
pub fn sort_buffers(buffers: &mut Vec<Buffer>)
    ensures
        views(final(buffers)@) == natural_order(views(old(buffers)@)),
        final(buffers)@.len() == old(buffers)@.len(),
{
    let mut all: Vec<Buffer> = Vec::new();
    core::mem::swap(buffers, &mut all);
    let compare = |a: &Buffer, b: &Buffer| -> (r: bool)
        ensures
            r == buffer_at_or_before(a@, b@),
        {
            if !same_text(a.server.as_str(), b.server.as_str()) {
                str_le(a.server.as_str(), b.server.as_str())
            } else if is_group_root(a) != is_group_root(b) {
                is_group_root(a)
            } else {
                a.number <= b.number
            }
        };
    *buffers = stable_sort(
        all,
        compare,
        Ghost(|a: BufferView, b: BufferView| buffer_at_or_before(a, b)),
    );
}

proof fn lemma_natural_order_total()
    ensures
        is_total_preorder(|a: BufferView, b: BufferView| buffer_at_or_before(a, b)),
{
    let le = |a: BufferView, b: BufferView| buffer_at_or_before(a, b);
    assert forall|a: BufferView, b: BufferView| #[trigger] le(a, b) || le(b, a) by {
        lemma_text_le_total(a.server, b.server);
    }
    assert forall|a: BufferView, b: BufferView, c: BufferView| #[trigger]
        le(a, b) && #[trigger] le(b, c) implies le(a, c) by {
        if a.server != b.server && b.server != c.server {
            lemma_text_le_transitive(a.server, b.server, c.server);
            if a.server == c.server {
                lemma_text_le_total(a.server, b.server);
            }
        }
    }
}

/// The natural order is a reordering of the buffers in which every server
/// stands together with its roots first.
pub proof fn natural_order_groups_servers(buffers: Seq<BufferView>)
    ensures
        natural_order(buffers).to_multiset() == buffers.to_multiset(),
        is_sorted(
            natural_order(buffers),
            |a: BufferView, b: BufferView| buffer_at_or_before(a, b),
        ),
        forall|i: int, j: int, k: int|
            0 <= i < j < k < buffers.len() && #[trigger] natural_order(buffers)[i].server
                == #[trigger] natural_order(buffers)[k].server
                ==> #[trigger] natural_order(buffers)[j].server == natural_order(buffers)[i].server,
        forall|i: int, j: int|
            0 <= i < j < buffers.len() && #[trigger] natural_order(buffers)[i].server
                == #[trigger] natural_order(buffers)[j].server && is_root(
                natural_order(buffers)[j],
            ) ==> is_root(natural_order(buffers)[i]),
{
    let le = |a: BufferView, b: BufferView| buffer_at_or_before(a, b);
    lemma_natural_order_total();
    lemma_sorted_by_permutation(buffers, le);
    lemma_sorted_by_sorted(buffers, le);
    let out = natural_order(buffers);
    assert forall|i: int, j: int, k: int|
        0 <= i < j < k < buffers.len() && #[trigger] out[i].server
            == #[trigger] out[k].server implies #[trigger] out[j].server == out[i].server by {
        assert(le(out[i], out[j]));
        assert(le(out[j], out[k]));
        lemma_text_le_total(out[i].server, out[j].server);
    }
    assert forall|i: int, j: int|
        0 <= i < j < buffers.len() && #[trigger] out[i].server == #[trigger] out[j].server
            && is_root(out[j]) implies is_root(out[i]) by {
        assert(le(out[i], out[j]));
    }
}

// ---------------------------------------------------------------------------
// The order that the user saved
// ---------------------------------------------------------------------------

/// Where an id stands in the saved order.
pub open spec fn saved_position(order: Seq<Seq<char>>, id: Seq<char>) -> Option<int> {
    first_index(order, |o: Seq<char>| o == id)
}

/// Where the saved order has the root of a group.
pub open spec fn root_position(
    buffers: Seq<BufferView>,
    order: Seq<Seq<char>>,
    key: (Seq<char>, Seq<char>),
) -> Option<int> {
    match last_index(
        buffers,
        |b: BufferView| is_root(b) && group_key(b) == key && saved_position(order, b.id) is Some,
    ) {
        Some(i) => saved_position(order, buffers[i].id),
        None => None,
    }
}

/// The rank of a buffer in the saved order: its own place there, or a place
/// behind the root of its group, or one behind everything.
pub open spec fn saved_rank(
    buffers: Seq<BufferView>,
    order: Seq<Seq<char>>,
    b: BufferView,
) -> int {
    match saved_position(order, b.id) {
        Some(position) => position * 10_000,
        None => {
            let base = match root_position(buffers, order, group_key(b)) {
                Some(position) => position * 10_000 + 1,
                None => (order.len() * 10_000 + 1) as int,
            };
            base + if b.number > 0 {
                b.number as int
            } else {
                0
            }
        },
    }
}

/// The buffers in the saved order.
pub open spec fn by_saved_rank(buffers: Seq<BufferView>, order: Seq<Seq<char>>) -> Seq<BufferView> {
    sorted_by(
        buffers,
        |a: BufferView, b: BufferView|
            saved_rank(buffers, order, a) <= saved_rank(buffers, order, b),
    )
}

/// Where an id stands among the buffers.
pub open spec fn place_of(buffers: Seq<BufferView>, id: Seq<char>) -> int {
    match last_index(buffers, |b: BufferView| b.id == id) {
        Some(i) => i,
        None => -1,
    }
}

/// The buffers `list`, put back in the order that `before` has them in.
pub open spec fn by_former_place(before: Seq<BufferView>, list: Seq<BufferView>) -> Seq<BufferView> {
    sorted_by(
        list,
        |a: BufferView, b: BufferView| place_of(before, a.id) <= place_of(before, b.id),
    )
}

/// Whether the saved order keeps the groups of the buffers together.
pub open spec fn saved_order_fits(buffers: Seq<BufferView>, order: Seq<Seq<char>>) -> bool {
    order.len() == 0 || groups_valid(by_saved_rank(buffers, order))
}

/// The buffers after the saved order was tried.
pub open spec fn with_saved_order(buffers: Seq<BufferView>, order: Seq<Seq<char>>) -> Seq<
    BufferView,
> {
    if order.len() == 0 {
        buffers
    } else if groups_valid(by_saved_rank(buffers, order)) {
        by_saved_rank(buffers, order)
    } else {
        by_former_place(buffers, by_saved_rank(buffers, order))
    }
}

pub fn position_in(order: &Vec<String>, id: &str) -> (position: Option<usize>)
    ensures
        opt_index(position) == saved_position(texts(order@), id@),
        position is Some ==> position->0 < order@.len(),
{
    let ghost p = |o: Seq<char>| o == id@;
    let mut i: usize = 0;
    while i < order.len()
        invariant
            i <= order@.len(),
            p == (|o: Seq<char>| o == id@),
            first_index(texts(order@), p) == first_from(texts(order@), p, i as int),
        decreases order@.len() - i,
    {
        assert(texts(order@)[i as int] == order@[i as int]@);
        if same_text(order[i].as_str(), id) {
            return Some(i);
        }
        i = i + 1;
    }
    None
}

fn root_position_of(buffers: &Vec<Buffer>, order: &Vec<String>, key: &GroupKey) -> (position:
    Option<usize>)
    ensures
        opt_index(position) == root_position(views(buffers@), texts(order@), key@),
        position is Some ==> position->0 < order@.len(),
{
    let ghost all = views(buffers@);
    let ghost p = |b: BufferView|
        is_root(b) && group_key(b) == key@ && saved_position(texts(order@), b.id) is Some;
    let mut n: usize = buffers.len();
    assert(all.take(n as int) =~= all);
    while n > 0
        invariant
            n <= buffers@.len(),
            all == views(buffers@),
            p == (|b: BufferView|
                is_root(b) && group_key(b) == key@ && saved_position(texts(order@), b.id) is Some),
            last_index(all, p) == last_index(all.take(n as int), p),
        decreases n,
    {
        let buffer = &buffers[n - 1];
        assert(all.take(n as int).last() == buffer@);
        assert(all.take(n as int).drop_last() =~= all.take(n - 1));
        if is_group_root(buffer) {
            let own = buffer_group_key(buffer);
            if same_key(&own, key) {
                let position = position_in(order, buffer.id.as_str());
                if position.is_some() {
                    return position;
                }
            }
        }
        n = n - 1;
    }
    None
}

fn saved_rank_of(buffers: &Vec<Buffer>, order: &Vec<String>, at: usize) -> (rank: u128)
    requires
        at < buffers@.len(),
    ensures
        rank == saved_rank(views(buffers@), texts(order@), buffers@[at as int]@),
{
    let buffer = &buffers[at];
    match position_in(order, buffer.id.as_str()) {
        Some(position) => position as u128 * 10_000,
        None => {
            let key = buffer_group_key(buffer);
            let base: u128 = match root_position_of(buffers, order, &key) {
                Some(position) => position as u128 * 10_000 + 1,
                None => order.len() as u128 * 10_000 + 1,
            };
            if buffer.number > 0 {
                base + buffer.number as u128
            } else {
                base
            }
        },
    }
}

fn place_among(buffers: &Vec<Buffer>, id: &str) -> (place: Option<usize>)
    ensures
        match place {
            Some(i) => last_index(views(buffers@), |b: BufferView| b.id == id@) == Some(i as int),
            None => last_index(views(buffers@), |b: BufferView| b.id == id@) is None,
        },
{
    let ghost all = views(buffers@);
    let ghost p = |b: BufferView| b.id == id@;
    let mut n: usize = buffers.len();
    assert(all.take(n as int) =~= all);
    while n > 0
        invariant
            n <= buffers@.len(),
            all == views(buffers@),
            p == (|b: BufferView| b.id == id@),
            last_index(all, p) == last_index(all.take(n as int), p),
        decreases n,
    {
        assert(all.take(n as int).last() == buffers@[n - 1]@);
        assert(all.take(n as int).drop_last() =~= all.take(n - 1));
        if same_text(buffers[n - 1].id.as_str(), id) {
            return Some(n - 1);
        }
        n = n - 1;
    }
    None
}

/// Applies a saved visual order without letting stale ids tear server groups
/// apart: where it would, the buffers go back to the order they had and the
/// answer is `false`.
pub fn apply_saved_buffer_order(buffers: &mut Vec<Buffer>, order: &Vec<String>) -> (applied: bool)
    ensures
        views(final(buffers)@) == with_saved_order(views(old(buffers)@), texts(order@)),
        applied == saved_order_fits(views(old(buffers)@), texts(order@)),
{
    if order.len() == 0 {
        return true;
    }
    let ghost before = views(buffers@);
    let ghost saved = texts(order@);
    let mut ranks: Vec<u128> = Vec::new();
    let mut former: Vec<usize> = Vec::new();
    let mut i: usize = 0;
    while i < buffers.len()
        invariant
            i <= buffers@.len(),
            before == views(buffers@),
            saved == texts(order@),
            ranks@.len() == i,
            former@.len() == i,
            forall|k: int|
                0 <= k < i ==> #[trigger] ranks@[k] == saved_rank(before, saved, before[k]),
            forall|k: int| 0 <= k < i ==> #[trigger] former@[k] == place_of(before, before[k].id),
        decreases buffers@.len() - i,
    {
        assert(before[i as int] == buffers@[i as int]@);
        ranks.push(saved_rank_of(buffers, order, i));
        match place_among(buffers, buffers[i].id.as_str()) {
            Some(place) => {
                former.push(place);
            },
            None => {
                proof {
                    lemma_last_index(before, |b: BufferView| b.id == before[i as int].id);
                    assert(false);
                }
                former.push(i);
            },
        }
        i = i + 1;
    }
    let ghost le = |a: BufferView, b: BufferView|
        saved_rank(before, saved, a) <= saved_rank(before, saved, b);
    let ranks_ref = &ranks;
    let compare = |i: usize, j: usize| -> (r: bool)
        requires
            i < ranks_ref@.len(),
            j < ranks_ref@.len(),
        ensures
            r == (ranks_ref@[i as int] <= ranks_ref@[j as int]),
        { ranks_ref[i] <= ranks_ref[j] };
    let places = sorted_places::<BufferView, _>(buffers.len(), compare, Ghost(before), Ghost(le));
    let mut all: Vec<Buffer> = Vec::new();
    core::mem::swap(buffers, &mut all);
    let ghost all_seq = all@;
    *buffers = pick_all(all, &places);
    proof {
        assert(views(buffers@) =~= at_places(before, places@));
        assert(by_saved_rank(before, saved) == sorted_by(before, le));
    }
    if buffer_groups_are_valid(buffers) {
        return true;
    }
    let ghost middle = views(buffers@);
    let mut former_now: Vec<usize> = Vec::new();
    let mut k: usize = 0;
    while k < places.len()
        invariant
            k <= places@.len(),
            former@.len() == before.len(),
            places@.len() == before.len(),
            forall|j: int| 0 <= j < places@.len() ==> (#[trigger] places@[j]) < before.len(),
            middle == at_places(before, places@),
            forall|j: int|
                0 <= j < former@.len() ==> #[trigger] former@[j] == place_of(before, before[j].id),
            former_now@.len() == k,
            forall|j: int|
                0 <= j < k ==> #[trigger] former_now@[j] == place_of(before, middle[j].id),
        decreases places@.len() - k,
    {
        former_now.push(former[places[k]]);
        k = k + 1;
    }
    let ghost le2 = |a: BufferView, b: BufferView|
        place_of(before, a.id) <= place_of(before, b.id);
    let former_ref = &former_now;
    let compare2 = |i: usize, j: usize| -> (r: bool)
        requires
            i < former_ref@.len(),
            j < former_ref@.len(),
        ensures
            r == (former_ref@[i as int] <= former_ref@[j as int]),
        { former_ref[i] <= former_ref[j] };
    let places2 = sorted_places::<BufferView, _>(buffers.len(), compare2, Ghost(middle), Ghost(le2));
    let mut all2: Vec<Buffer> = Vec::new();
    core::mem::swap(buffers, &mut all2);
    *buffers = pick_all(all2, &places2);
    proof {
        assert(views(buffers@) =~= at_places(middle, places2@));
        assert(by_former_place(before, middle) == sorted_by(middle, le2));
    }
    false
}

/// No two buffers share an id.
pub open spec fn distinct_ids(buffers: Seq<BufferView>) -> bool {
    forall|i: int, j: int|
        0 <= i < buffers.len() && 0 <= j < buffers.len() && i != j ==> (#[trigger] buffers[i]).id != (
        #[trigger] buffers[j]).id
}

/// Trying a saved order neither loses nor invents a buffer. Where it is
/// applied, the groups stand together; where it is refused, every buffer is
/// back at its place.
pub proof fn saved_order_never_tears_groups(buffers: Seq<BufferView>, order: Seq<Seq<char>>)
    ensures
        with_saved_order(buffers, order).to_multiset() == buffers.to_multiset(),
        order.len() > 0 && saved_order_fits(buffers, order) ==> groups_valid(
            with_saved_order(buffers, order),
        ),
        !saved_order_fits(buffers, order) && distinct_ids(buffers) ==> with_saved_order(
            buffers,
            order,
        ) == buffers,
{
    let le = |a: BufferView, b: BufferView|
        saved_rank(buffers, order, a) <= saved_rank(buffers, order, b);
    let key = |b: BufferView| place_of(buffers, b.id);
    let le2 = |a: BufferView, b: BufferView| place_of(buffers, a.id) <= place_of(buffers, b.id);
    let middle = by_saved_rank(buffers, order);
    lemma_sorted_by_permutation(buffers, le);
    lemma_sorted_by_permutation(middle, le2);
    if distinct_ids(buffers) && !saved_order_fits(buffers, order) {
        let out = by_former_place(buffers, middle);
        assert(is_total_preorder(le2));
        lemma_sorted_by_sorted(middle, le2);
        assert forall|i: int| 0 <= i < buffers.len() implies #[trigger] key(buffers[i]) == i by {
            let p = |b: BufferView| b.id == buffers[i].id;
            crate::seqs::lemma_last_is(buffers, p, i);
        }
        let le3 = |a: BufferView, b: BufferView| key(a) <= key(b);
        assert(is_sorted(out, le3)) by {
            assert forall|i: int, j: int| 0 <= i < j < out.len() implies le3(
                #[trigger] out[i],
                #[trigger] out[j],
            ) by {
                assert(le2(out[i], out[j]));
            }
        }
        assert(is_sorted(buffers, le3)) by {
            assert forall|i: int, j: int| 0 <= i < j < buffers.len() implies le3(
                #[trigger] buffers[i],
                #[trigger] buffers[j],
            ) by {
                assert(key(buffers[i]) == i);
                assert(key(buffers[j]) == j);
            }
        }
        lemma_sorted_unique_by_key(out, buffers, key);
    }
}

// ---------------------------------------------------------------------------
// Dragging
// ---------------------------------------------------------------------------

/// The buffers that move with the one at `at`: its whole server where it heads
/// one, and otherwise it alone.
pub open spec fn dragged(buffers: Seq<BufferView>, at: int) -> Seq<BufferView> {
    if is_root(buffers[at]) {
        buffers.filter(|b: BufferView| b.server == buffers[at].server)
    } else {
        seq![buffers[at]]
    }
}

/// The buffers that stay where they are.
pub open spec fn undragged(buffers: Seq<BufferView>, at: int) -> Seq<BufferView> {
    if is_root(buffers[at]) {
        buffers.filter(|b: BufferView| b.server != buffers[at].server)
    } else {
        buffers.remove(at)
    }
}

pub open spec fn has_id(buffers: Seq<BufferView>, id: Seq<char>) -> bool {
    exists|i: int| 0 <= i < buffers.len() && (#[trigger] buffers[i]).id == id
}

/// The buffers after one was dropped before another, or at the end.
pub open spec fn after_drag(
    buffers: Seq<BufferView>,
    drag_id: Seq<char>,
    drop_before: Option<Seq<char>>,
) -> Seq<BufferView> {
    match first_index(buffers, |b: BufferView| b.id == drag_id) {
        None => buffers,
        Some(at) => {
            let moved = dragged(buffers, at);
            let rest = undragged(buffers, at);
            match drop_before {
                Some(target) => if has_id(moved, target) {
                    buffers
                } else {
                    let to = match first_index(rest, |b: BufferView| b.id == target) {
                        Some(i) => i,
                        None => rest.len() as int,
                    };
                    rest.take(to) + moved + rest.skip(to)
                },
                None => rest + moved,
            }
        },
    }
}

pub fn buffer_position(buffers: &Vec<Buffer>, id: &str) -> (position: Option<usize>)
    ensures
        opt_index(position) == first_index(views(buffers@), |b: BufferView| b.id == id@),
        position is Some ==> position->0 < buffers@.len(),
{
    let ghost p = |b: BufferView| b.id == id@;
    let mut i: usize = 0;
    while i < buffers.len()
        invariant
            i <= buffers@.len(),
            p == (|b: BufferView| b.id == id@),
            first_index(views(buffers@), p) == first_from(views(buffers@), p, i as int),
        decreases buffers@.len() - i,
    {
        assert(views(buffers@)[i as int] == buffers@[i as int]@);
        if same_text(buffers[i].id.as_str(), id) {
            return Some(i);
        }
        i = i + 1;
    }
    None
}

/// The places of the buffers of one server, and of all others.
fn split_places(buffers: &Vec<Buffer>, at: usize) -> (parts: (Vec<usize>, Vec<usize>))
    requires
        at < buffers@.len(),
    ensures
        at_places(views(buffers@), parts.0@) == dragged(views(buffers@), at as int),
        at_places(views(buffers@), parts.1@) == undragged(views(buffers@), at as int),
        forall|k: int| 0 <= k < parts.0@.len() ==> (#[trigger] parts.0@[k]) < buffers@.len(),
        forall|k: int| 0 <= k < parts.1@.len() ==> (#[trigger] parts.1@[k]) < buffers@.len(),
        (parts.0@ + parts.1@).no_duplicates(),
        parts.0@.len() + parts.1@.len() == buffers@.len(),
{
    let ghost all = views(buffers@);
    let mut moved: Vec<usize> = Vec::new();
    let mut rest: Vec<usize> = Vec::new();
    let whole_server = is_group_root(&buffers[at]);
    let ghost p = |b: BufferView| b.server == all[at as int].server;
    let ghost q = |b: BufferView| b.server != all[at as int].server;
    let mut i: usize = 0;
    proof {
        reveal(Seq::filter);
        assert(at_places(all, moved@) =~= all.take(0).filter(p));
        assert(at_places(all, rest@) =~= all.take(0).filter(q));
        assert(at_places(all, rest@) =~= all.take(0));
    }
    while i < buffers.len()
        invariant
            i <= buffers@.len(),
            at < buffers@.len(),
            all == views(buffers@),
            p == (|b: BufferView| b.server == all[at as int].server),
            q == (|b: BufferView| b.server != all[at as int].server),
            whole_server == is_root(all[at as int]),
            moved@.len() + rest@.len() == i,
            forall|k: int| 0 <= k < moved@.len() ==> (#[trigger] moved@[k]) < i,
            forall|k: int| 0 <= k < rest@.len() ==> (#[trigger] rest@[k]) < i,
            (moved@ + rest@).no_duplicates(),
            whole_server ==> at_places(all, moved@) == all.take(i as int).filter(p),
            whole_server ==> at_places(all, rest@) == all.take(i as int).filter(q),
            !whole_server && i <= at ==> moved@.len() == 0 && at_places(all, rest@) == all.take(
                i as int,
            ),
            !whole_server && i > at ==> moved@ == seq![at] && at_places(all, rest@) == all.take(
                i as int,
            ).remove(at as int),
        decreases buffers@.len() - i,
    {
        let ghost m0 = moved@;
        let ghost r0 = rest@;
        proof {
            lemma_filter_take(all, i as int, p);
            lemma_filter_take(all, i as int, q);
            assert(all.take(i + 1) =~= all.take(i as int).push(all[i as int]));
        }
        let moves = if whole_server {
            same_text(buffers[i].server.as_str(), buffers[at].server.as_str())
        } else {
            i == at
        };
        if moves {
            moved.push(i);
            proof {
                assert(at_places(all, moved@) =~= at_places(all, m0).push(all[i as int]));
                assert(moved@ + rest@ =~= (m0 + r0).insert(m0.len() as int, i));
                assert((m0 + r0).insert(m0.len() as int, i).no_duplicates()) by {
                    assert forall|k: int| 0 <= k < (m0 + r0).len() implies (#[trigger] (m0 + r0)[k])
                        < i by {
                        if k < m0.len() {
                            assert(m0[k] < i);
                        } else {
                            assert(r0[k - m0.len()] < i);
                        }
                    }
                }
                if !whole_server {
                    assert(moved@ =~= seq![at]);
                    assert(all.take(i + 1).remove(at as int) =~= all.take(i as int));
                }
            }
        } else {
            rest.push(i);
            proof {
                assert(at_places(all, rest@) =~= at_places(all, r0).push(all[i as int]));
                assert(moved@ + rest@ =~= (m0 + r0).push(i));
                assert((m0 + r0).push(i).no_duplicates()) by {
                    assert forall|k: int| 0 <= k < (m0 + r0).len() implies (#[trigger] (m0 + r0)[k])
                        < i by {
                        if k < m0.len() {
                            assert(m0[k] < i);
                        } else {
                            assert(r0[k - m0.len()] < i);
                        }
                    }
                }
                if !whole_server && i > at {
                    assert(all.take(i + 1).remove(at as int) =~= all.take(i as int).remove(
                        at as int,
                    ).push(all[i as int]));
                }
            }
        }
        i = i + 1;
    }
    proof {
        assert(all.take(i as int) =~= all);
        if !whole_server {
            assert(at_places(all, moved@) =~= seq![all[at as int]]);
        }
    }
    (moved, rest)
}

/// Moves the dragged buffer, and its whole server where it heads one, to just
/// before `drop_before_id`, or to the end where there is none. Nothing moves
/// where the target moves too.
#[verifier::loop_isolation(false)]
pub fn apply_drag_reorder(buffers: &mut Vec<Buffer>, drag_id: &str, drop_before_id: Option<&str>)
    ensures
        views(final(buffers)@) == after_drag(
            views(old(buffers)@),
            drag_id@,
            crate::text::opt_str(drop_before_id),
        ),
{
    let ghost before = views(buffers@);
    let at: usize = match buffer_position(buffers, drag_id) {
        Some(at) => at,
        None => {
            return ;
        },
    };
    let parts = split_places(buffers, at);
    let moved = parts.0;
    let rest = parts.1;
    let ghost moved_views = dragged(before, at as int);
    let ghost rest_views = undragged(before, at as int);
    let mut to: usize = rest.len();
    match drop_before_id {
        Some(target) => {
            let mut k: usize = 0;
            while k < moved.len()
                invariant
                    k <= moved@.len(),
                    before == views(buffers@),
                    forall|j: int| 0 <= j < moved@.len() ==> (#[trigger] moved@[j]) < buffers@.len(),
                    at_places(before, moved@) == moved_views,
                    forall|j: int| 0 <= j < k ==> (#[trigger] moved_views[j]).id != target@,
                decreases moved@.len() - k,
            {
                assert(moved_views[k as int] == at_places(before, moved@)[k as int]);
                if same_text(buffers[moved[k]].id.as_str(), target) {
                    assert(has_id(moved_views, target@));
                    return ;
                }
                k = k + 1;
            }
            assert(!has_id(moved_views, target@));
            let ghost p = |b: BufferView| b.id == target@;
            let mut r: usize = 0;
            while r < rest.len() && !same_text(buffers[rest[r]].id.as_str(), target)
                invariant
                    r <= rest@.len(),
                    first_index(rest_views, p) == first_from(rest_views, p, r as int),
                decreases rest@.len() - r,
            {
                assert(rest_views[r as int] == at_places(before, rest@)[r as int]);
                r = r + 1;
            }
            if r < rest.len() {
                assert(rest_views[r as int] == at_places(before, rest@)[r as int]);
            }
            to = r;
        },
        None => {},
    }
    let mut places: Vec<usize> = Vec::new();
    let mut tail = rest;
    let mut moving = moved;
    let ghost rest_places = tail@;
    let ghost moved_places = moving@;
    let mut end = tail.split_off(to);
    places.append(&mut tail);
    places.append(&mut moving);
    places.append(&mut end);
    proof {
        assert(places@ =~= rest_places.take(to as int) + moved_places + rest_places.skip(
            to as int,
        ));
        let both = moved_places + rest_places;
        assert(places@.no_duplicates()) by {
            assert forall|i: int, j: int|
                0 <= i < places@.len() && 0 <= j < places@.len() && i != j implies places@[i]
                != places@[j] by {
                let m = moved_places.len() as int;
                let i2 = if i < to {
                    m + i
                } else if i < to + m {
                    i - to
                } else {
                    i
                };
                let j2 = if j < to {
                    m + j
                } else if j < to + m {
                    j - to
                } else {
                    j
                };
                assert(both[i2] == places@[i]);
                assert(both[j2] == places@[j]);
                assert(both[i2] != both[j2]);
            }
        }
        assert forall|k: int| 0 <= k < places@.len() implies (#[trigger] places@[k])
            < buffers@.len() by {
            let m = moved_places.len() as int;
            if k < to {
                assert(places@[k] == rest_places[k]);
            } else if k < to + m {
                assert(places@[k] == moved_places[k - to]);
            } else {
                assert(places@[k] == rest_places[k - m]);
            }
        }
        assert(at_places(before, places@) =~= rest_views.take(to as int) + moved_views
            + rest_views.skip(to as int)) by {
            assert(rest_views.len() == rest_places.len());
            assert(moved_views.len() == moved_places.len());
            assert forall|k: int| 0 <= k < moved_places.len() implies moved_views[k]
                == before[moved_places[k] as int] by {
                assert(moved_views[k] == at_places(before, moved_places)[k]);
            }
            assert forall|k: int| 0 <= k < rest_places.len() implies rest_views[k]
                == before[rest_places[k] as int] by {
                assert(rest_views[k] == at_places(before, rest_places)[k]);
            }
        }
        if drop_before_id is None {
            assert(rest_views.take(to as int) + moved_views + rest_views.skip(to as int)
                =~= rest_views + moved_views);
        }
    }
    let mut all: Vec<Buffer> = Vec::new();
    core::mem::swap(buffers, &mut all);
    *buffers = pick_all(all, &places);
    assert(views(buffers@) =~= at_places(before, places@));
}

/// Dragging neither loses nor invents a buffer.
pub proof fn dragging_keeps_every_buffer(
    buffers: Seq<BufferView>,
    drag_id: Seq<char>,
    drop_before: Option<Seq<char>>,
)
    ensures
        after_drag(buffers, drag_id, drop_before).to_multiset() == buffers.to_multiset(),
{
    broadcast use vstd::seq_lib::group_to_multiset_ensures;

    let find = |b: BufferView| b.id == drag_id;
    lemma_first_from(buffers, find, 0);
    match first_index(buffers, find) {
        None => {},
        Some(at) => {
            let moved = dragged(buffers, at);
            let rest = undragged(buffers, at);
            assert(moved.to_multiset().add(rest.to_multiset()) =~= buffers.to_multiset()) by {
                if is_root(buffers[at]) {
                    let p = |b: BufferView| b.server == buffers[at].server;
                    let q = |b: BufferView| b.server != buffers[at].server;
                    lemma_filter_parts(buffers, p);
                    assert((|b: BufferView| !p(b)) =~= q);
                } else {
                    assert(buffers =~= rest.insert(at, buffers[at]));
                    assert(moved =~= Seq::<BufferView>::empty().push(buffers[at]));
                    assert(moved.to_multiset() =~= vstd::multiset::Multiset::empty().insert(
                        buffers[at],
                    ));
                }
            }
            match drop_before {
                Some(target) => {
                    if !has_id(moved, target) {
                        let p = |b: BufferView| b.id == target;
                        lemma_first_from(rest, p, 0);
                        let to = match first_index(rest, p) {
                            Some(i) => i,
                            None => rest.len() as int,
                        };
                        assert(rest =~= rest.take(to) + rest.skip(to));
                        vstd::seq_lib::lemma_multiset_commutative(rest.take(to), rest.skip(to));
                        vstd::seq_lib::lemma_multiset_commutative(rest.take(to), moved);
                        vstd::seq_lib::lemma_multiset_commutative(
                            rest.take(to) + moved,
                            rest.skip(to),
                        );
                        assert(after_drag(buffers, drag_id, drop_before).to_multiset()
                            =~= buffers.to_multiset());
                    }
                },
                None => {
                    vstd::seq_lib::lemma_multiset_commutative(rest, moved);
                    assert(after_drag(buffers, drag_id, drop_before).to_multiset()
                        =~= buffers.to_multiset());
                },
            }
        },
    }
}

} // verus!
