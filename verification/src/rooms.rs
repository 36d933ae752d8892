//! Matrix rooms that were replaced by newer ones.
use vstd::prelude::*;
use vstd::hash_map::StringHashMap;
use vstd::hash_set::StringHashSet;
use std::collections::VecDeque;
use crate::collections::TextSet;
use crate::models::{Buffer, BufferView, Line, LineView};
use crate::order::{buffer_position, is_group_root, is_root};
use crate::seqs::{
    first_from, first_index, is_sorted, is_total_preorder, lemma_filter_less, lemma_filter_take,
    lemma_first_from, lemma_sorted_by_permutation, lemma_sorted_by_sorted, position_from, sorted_by,
    stable_sort, views,
};
use crate::state::MAX_STORED_LINES;
use crate::text::{
    clone_opt, join2, join3, opt_text, same_opt, same_text, split_once, starts_with, str_split_once,
    str_starts_with, str_strip_prefix, strip_prefix, texts,
};
use crate::time::{at_or_before, before};

verus! {

/// How many replacements of a room are followed.
pub const MATRIX_ROOM_UPGRADE_CHAIN_LIMIT: usize = 32;

// ---------------------------------------------------------------------------
// Which rooms were replaced
// ---------------------------------------------------------------------------

/// Whether a room id is the expected one, or the expected one with a server.
pub open spec fn room_matches(expected: Seq<char>, candidate: Seq<char>) -> bool {
    expected == candidate || match strip_prefix(candidate, expected) {
        Some(suffix) => starts_with(suffix, ":"@),
        None => false,
    }
}

pub fn matrix_room_id_matches(expected: &str, candidate: &str) -> (yes: bool)
    ensures
        yes == room_matches(expected@, candidate@),
{
    same_text(expected, candidate) || match str_strip_prefix(candidate, expected) {
        Some(suffix) => str_starts_with(suffix.as_str(), ":"),
        None => false,
    }
}

/// Whether a buffer shows a room that matches an id.
pub open spec fn shows_room(b: BufferView, expected: Seq<char>) -> bool {
    !b.is_thread() && match b.matrix_room_id {
        Some(room_id) => room_matches(expected, room_id),
        None => false,
    }
}

/// Whether one of the buffers shows a room that matches an id.
pub open spec fn room_is_shown(buffers: Seq<BufferView>, expected: Seq<char>) -> bool {
    exists|i: int| 0 <= i < buffers.len() && shows_room(#[trigger] buffers[i], expected)
}

/// Whether a buffer tells that the room with an id was replaced: as the
/// predecessor of its own room, or as its own room that has a successor. Both
/// rooms have to be there.
pub open spec fn tells_replaced(buffers: Seq<BufferView>, b: BufferView, id: Seq<char>) -> bool {
    !b.is_thread() && (b.matrix_predecessor_room_id == Some(id) && room_is_shown(buffers, id)
        || b.matrix_room_id == Some(id) && b.matrix_replacement_room_id is Some && room_is_shown(
        buffers,
        b.matrix_replacement_room_id->0,
    ))
}

/// The rooms that were replaced.
pub open spec fn replaced_rooms(buffers: Seq<BufferView>) -> Set<Seq<char>> {
    Set::new(
        |id: Seq<char>|
            exists|i: int|
                0 <= i < buffers.len() && tells_replaced(buffers, #[trigger] buffers[i], id),
    )
}

fn is_room_shown(buffers: &Vec<Buffer>, expected: &str) -> (yes: bool)
    ensures
        yes == room_is_shown(views(buffers@), expected@),
{
    let mut i: usize = 0;
    while i < buffers.len()
        invariant
            i <= buffers@.len(),
            forall|j: int| 0 <= j < i ==> !shows_room(#[trigger] views(buffers@)[j], expected@),
        decreases buffers@.len() - i,
    {
        assert(views(buffers@)[i as int] == buffers@[i as int]@);
        if !buffers[i].is_matrix_thread() {
            match &buffers[i].matrix_room_id {
                Some(room_id) => {
                    if matrix_room_id_matches(expected, room_id.as_str()) {
                        assert(shows_room(views(buffers@)[i as int], expected@));
                        return true;
                    }
                },
                None => {},
            }
        }
        i = i + 1;
    }
    false
}

/// The rooms that were replaced by newer ones.
pub fn replaced_matrix_room_ids(buffers: &Vec<Buffer>) -> (replaced: TextSet)
    ensures
        replaced@ == replaced_rooms(views(buffers@)),
{
    let ghost all = views(buffers@);
    let mut replaced = TextSet::new();
    let mut i: usize = 0;
    while i < buffers.len()
        invariant
            i <= buffers@.len(),
            all == views(buffers@),
            forall|id: Seq<char>|
                #[trigger] replaced@.contains(id) <==> exists|j: int|
                    0 <= j < i && tells_replaced(all, #[trigger] all[j], id),
        decreases buffers@.len() - i,
    {
        let buffer = &buffers[i];
        assert(all[i as int] == buffer@);
        let ghost before = replaced@;
        if !buffer.is_matrix_thread() {
            match &buffer.matrix_predecessor_room_id {
                Some(predecessor) => {
                    if is_room_shown(buffers, predecessor.as_str()) {
                        replaced.insert(predecessor.clone());
                    }
                },
                None => {},
            }
            match (&buffer.matrix_room_id, &buffer.matrix_replacement_room_id) {
                (Some(room_id), Some(replacement)) => {
                    if is_room_shown(buffers, replacement.as_str()) {
                        replaced.insert(room_id.clone());
                    }
                },
                _ => {},
            }
        }
        proof {
            assert forall|id: Seq<char>|
                #[trigger] replaced@.contains(id) <==> before.contains(id) || tells_replaced(
                    all,
                    all[i as int],
                    id,
                ) by {}
            assert forall|id: Seq<char>|
                #[trigger] replaced@.contains(id) <==> exists|j: int|
                    0 <= j < i + 1 && tells_replaced(all, #[trigger] all[j], id) by {
                assert(replaced@.contains(id) <==> before.contains(id) || tells_replaced(
                    all,
                    all[i as int],
                    id,
                ));
                if before.contains(id) {
                    let j = choose|j: int| 0 <= j < i && tells_replaced(all, #[trigger] all[j], id);
                    assert(tells_replaced(all, all[j], id));
                }
            }
        }
        i = i + 1;
    }
    assert(replaced@ =~= replaced_rooms(all));
    replaced
}

// ---------------------------------------------------------------------------
// Following the replacements
// ---------------------------------------------------------------------------

/// What stands before the first slash of a buffer's id, where it has one.
pub open spec fn connection_prefix(id: Seq<char>) -> Option<Seq<char>> {
    match split_once(id, "/"@) {
        Some((prefix, _)) => Some(prefix),
        None => None,
    }
}

/// Whether a buffer belongs to a connection; every buffer does where none is
/// given.
pub open spec fn on_connection(connection: Option<Seq<char>>, id: Seq<char>) -> bool {
    connection is None || connection_prefix(id) == connection
}

pub fn connection_prefix_of(id: &str) -> (prefix: Option<String>)
    ensures
        opt_text(prefix) == connection_prefix(id@),
{
    match str_split_once(id, "/") {
        Some((prefix, _)) => Some(prefix),
        None => None,
    }
}

fn is_on_connection(connection: &Option<String>, id: &str) -> (yes: bool)
    ensures
        yes == on_connection(opt_text(*connection), id@),
{
    connection.is_none() || same_opt(&connection_prefix_of(id), connection)
}

/// A room whose predecessor is the given one.
pub open spec fn succeeds(
    b: BufferView,
    connection: Option<Seq<char>>,
    room_id: Seq<char>,
) -> bool {
    !b.is_thread() && b.matrix_predecessor_room_id == Some(room_id) && on_connection(
        connection,
        b.id,
    )
}

/// The room that replaces the room of a buffer: the one that it names, or the
/// one that names it as its predecessor.
pub open spec fn successor_room(
    buffers: Seq<BufferView>,
    connection: Option<Seq<char>>,
    b: BufferView,
) -> Option<Seq<char>> {
    match b.matrix_replacement_room_id {
        Some(room_id) => Some(room_id),
        None => match b.matrix_room_id {
            Some(room_id) => match first_index(
                buffers,
                |c: BufferView| succeeds(c, connection, room_id),
            ) {
                Some(i) => buffers[i].matrix_room_id,
                None => None,
            },
            None => None,
        },
    }
}

/// The buffer that replaces the one with an id.
pub open spec fn successor(
    buffers: Seq<BufferView>,
    connection: Option<Seq<char>>,
    id: Seq<char>,
) -> Option<Seq<char>> {
    match first_index(buffers, |b: BufferView| b.id == id) {
        Some(at) => match successor_room(buffers, connection, buffers[at]) {
            Some(room_id) => match first_index(
                buffers,
                |b: BufferView| shows_room(b, room_id) && on_connection(connection, b.id),
            ) {
                Some(i) => Some(buffers[i].id),
                None => None,
            },
            None => None,
        },
        None => None,
    }
}

/// The last buffer on the way from one to its successors, without going round
/// in circles and over at most `steps` of them.
pub open spec fn last_successor(
    buffers: Seq<BufferView>,
    connection: Option<Seq<char>>,
    id: Seq<char>,
    seen: Set<Seq<char>>,
    latest: Option<Seq<char>>,
    steps: nat,
) -> Option<Seq<char>>
    decreases steps,
{
    if steps == 0 || seen.contains(id) {
        latest
    } else {
        match successor(buffers, connection, id) {
            Some(next) => last_successor(
                buffers,
                connection,
                next,
                seen.insert(id),
                Some(next),
                (steps - 1) as nat,
            ),
            None => latest,
        }
    }
}

/// The buffer of the room that replaced the room of another, after all
/// replacements.
pub open spec fn replacement_of(buffers: Seq<BufferView>, id: Seq<char>) -> Option<Seq<char>> {
    last_successor(
        buffers,
        connection_prefix(id),
        id,
        Set::empty(),
        None,
        MATRIX_ROOM_UPGRADE_CHAIN_LIMIT as nat,
    )
}

fn successor_room_of(buffers: &Vec<Buffer>, connection: &Option<String>, at: usize) -> (room_id:
    Option<String>)
    requires
        at < buffers@.len(),
    ensures
        opt_text(room_id) == successor_room(
            views(buffers@),
            opt_text(*connection),
            buffers@[at as int]@,
        ),
{
    let current = &buffers[at];
    if current.matrix_replacement_room_id.is_some() {
        return clone_opt(&current.matrix_replacement_room_id);
    }
    match &current.matrix_room_id {
        Some(room_id) => {
            let ghost conn = opt_text(*connection);
            let found = |b: &Buffer| -> (r: bool)
                ensures
                    r == succeeds(b@, opt_text(*connection), room_id@),
                {
                    !b.is_matrix_thread() && crate::text::opt_is(
                        &b.matrix_predecessor_room_id,
                        room_id.as_str(),
                    ) && is_on_connection(connection, b.id.as_str())
                };
            match position_from(
                buffers.as_slice(),
                0,
                found,
                Ghost(|b: BufferView| succeeds(b, conn, room_id@)),
            ) {
                Some(i) => {
                    assert(views(buffers@)[i as int] == buffers@[i as int]@);
                    clone_opt(&buffers[i].matrix_room_id)
                },
                None => None,
            }
        },
        None => None,
    }
}

fn successor_of(buffers: &Vec<Buffer>, connection: &Option<String>, id: &str) -> (next: Option<
    String,
>)
    ensures
        opt_text(next) == successor(views(buffers@), opt_text(*connection), id@),
{
    let at: usize = match buffer_position(buffers, id) {
        Some(at) => at,
        None => {
            return None;
        },
    };
    assert(views(buffers@)[at as int] == buffers@[at as int]@);
    match successor_room_of(buffers, connection, at) {
        Some(room_id) => {
            let ghost conn = opt_text(*connection);
            let room = room_id.as_str();
            let found = |b: &Buffer| -> (r: bool)
                ensures
                    r == (shows_room(b@, room_id@) && on_connection(opt_text(*connection), b@.id)),
                {
                    !b.is_matrix_thread() && (match &b.matrix_room_id {
                        Some(candidate) => matrix_room_id_matches(room, candidate.as_str()),
                        None => false,
                    }) && is_on_connection(connection, b.id.as_str())
                };
            match position_from(
                buffers.as_slice(),
                0,
                found,
                Ghost(|b: BufferView| shows_room(b, room_id@) && on_connection(conn, b.id)),
            ) {
                Some(i) => {
                    assert(views(buffers@)[i as int] == buffers@[i as int]@);
                    Some(buffers[i].id.clone())
                },
                None => None,
            }
        },
        None => None,
    }
}

/// The buffer of the room that replaced the room of another, after all
/// replacements that are known.
pub fn replacement_buffer_id(buffers: &Vec<Buffer>, current_buffer_id: &str) -> (replacement:
    Option<String>)
    ensures
        opt_text(replacement) == replacement_of(views(buffers@), current_buffer_id@),
{
    let connection = connection_prefix_of(current_buffer_id);
    let ghost conn = opt_text(connection);
    let mut current_id = current_buffer_id.to_owned();
    let mut latest_id: Option<String> = None;
    let mut seen = TextSet::new();
    let mut steps: usize = MATRIX_ROOM_UPGRADE_CHAIN_LIMIT;
    while steps > 0
        invariant
            conn == opt_text(connection),
            conn == connection_prefix(current_buffer_id@),
            last_successor(
                views(buffers@),
                conn,
                current_id@,
                seen@,
                opt_text(latest_id),
                steps as nat,
            ) == replacement_of(views(buffers@), current_buffer_id@),
        decreases steps,
    {
        if seen.contains(current_id.as_str()) {
            return latest_id;
        }
        match successor_of(buffers, &connection, current_id.as_str()) {
            Some(next_id) => {
                seen.insert(current_id);
                latest_id = Some(next_id.clone());
                current_id = next_id;
            },
            None => {
                return latest_id;
            },
        }
        steps = steps - 1;
    }
    latest_id
}

/// A room without a successor has no replacement.
pub proof fn room_without_successor_is_current(buffers: Seq<BufferView>, id: Seq<char>)
    requires
        successor(buffers, connection_prefix(id), id) is None,
    ensures
        replacement_of(buffers, id) is None,
{
}

/// A replacement is never a thread, and it is one of the buffers.
pub proof fn replacement_is_a_live_room(buffers: Seq<BufferView>, id: Seq<char>)
    requires
        replacement_of(buffers, id) is Some,
    ensures
        exists|i: int|
            0 <= i < buffers.len() && (#[trigger] buffers[i]).id == replacement_of(buffers, id)->0
                && !buffers[i].is_thread() && on_connection(connection_prefix(id), buffers[i].id),
{
    lemma_last_successor(
        buffers,
        connection_prefix(id),
        id,
        Set::empty(),
        None,
        MATRIX_ROOM_UPGRADE_CHAIN_LIMIT as nat,
    );
}

/// Whether an id is that of a room on a connection.
spec fn is_room_on(buffers: Seq<BufferView>, connection: Option<Seq<char>>, id: Seq<char>) -> bool {
    exists|i: int|
        0 <= i < buffers.len() && (#[trigger] buffers[i]).id == id && !buffers[i].is_thread()
            && on_connection(connection, buffers[i].id)
}

proof fn lemma_last_successor(
    buffers: Seq<BufferView>,
    connection: Option<Seq<char>>,
    id: Seq<char>,
    seen: Set<Seq<char>>,
    latest: Option<Seq<char>>,
    steps: nat,
)
    requires
        latest is Some ==> is_room_on(buffers, connection, latest->0),
    ensures
        last_successor(buffers, connection, id, seen, latest, steps) is Some ==> is_room_on(
            buffers,
            connection,
            last_successor(buffers, connection, id, seen, latest, steps)->0,
        ),
    decreases steps,
{
    if steps > 0 && !seen.contains(id) {
        match successor(buffers, connection, id) {
            Some(next) => {
                let at = first_index(buffers, |b: BufferView| b.id == id)->0;
                let room_id = successor_room(buffers, connection, buffers[at])->0;
                let p = |b: BufferView| shows_room(b, room_id) && on_connection(connection, b.id);
                lemma_first_from(buffers, p, 0);
                assert(is_room_on(buffers, connection, next));
                lemma_last_successor(
                    buffers,
                    connection,
                    next,
                    seen.insert(id),
                    Some(next),
                    (steps - 1) as nat,
                );
            },
            None => {},
        }
    }
}

// ---------------------------------------------------------------------------
// Going back
// ---------------------------------------------------------------------------

/// How many buffers name a predecessor that was not seen yet.
pub open spec fn unseen_predecessors(buffers: Seq<BufferView>, seen: Set<Seq<char>>) -> nat {
    buffers.filter(|b: BufferView| names_unseen(b, seen)).len()
}

pub open spec fn names_unseen(b: BufferView, seen: Set<Seq<char>>) -> bool {
    b.matrix_predecessor_room_id is Some && !seen.contains(b.matrix_predecessor_room_id->0)
}

/// Whether a buffer shows exactly this room on a connection.
pub open spec fn is_room(b: BufferView, connection: Option<Seq<char>>, room_id: Seq<char>) -> bool {
    !b.is_thread() && b.matrix_room_id == Some(room_id) && on_connection(connection, b.id)
}

/// The predecessors of the buffer at a place, the newest first.
pub open spec fn predecessors_from(
    buffers: Seq<BufferView>,
    connection: Option<Seq<char>>,
    at: int,
    seen: Set<Seq<char>>,
) -> Seq<Seq<char>>
    decreases unseen_predecessors(buffers, seen),
    via predecessors_from_decreases
{
    if 0 <= at < buffers.len() && names_unseen(buffers[at], seen) {
        let room_id = buffers[at].matrix_predecessor_room_id->0;
        match first_index(buffers, |b: BufferView| is_room(b, connection, room_id)) {
            Some(i) => seq![buffers[i].id] + predecessors_from(
                buffers,
                connection,
                i,
                seen.insert(room_id),
            ),
            None => Seq::empty(),
        }
    } else {
        Seq::empty()
    }
}

#[via_fn]
proof fn predecessors_from_decreases(
    buffers: Seq<BufferView>,
    connection: Option<Seq<char>>,
    at: int,
    seen: Set<Seq<char>>,
) {
    if 0 <= at < buffers.len() && names_unseen(buffers[at], seen) {
        lemma_one_seen(buffers, at, seen);
    }
}

proof fn lemma_one_seen(buffers: Seq<BufferView>, at: int, seen: Set<Seq<char>>)
    requires
        0 <= at < buffers.len(),
        names_unseen(buffers[at], seen),
    ensures
        unseen_predecessors(buffers, seen.insert(buffers[at].matrix_predecessor_room_id->0))
            < unseen_predecessors(buffers, seen),
{
    let more = seen.insert(buffers[at].matrix_predecessor_room_id->0);
    lemma_filter_less(
        buffers,
        |b: BufferView| names_unseen(b, seen),
        |b: BufferView| names_unseen(b, more),
        at,
    );
}

/// The buffers of the rooms that a buffer's room replaced, the newest first.
pub open spec fn predecessors(buffers: Seq<BufferView>, id: Seq<char>) -> Seq<Seq<char>> {
    match first_index(buffers, |b: BufferView| b.id == id) {
        Some(at) => predecessors_from(buffers, connection_prefix(id), at, Set::empty()),
        None => Seq::empty(),
    }
}

/// The buffers of the rooms that a buffer's room replaced, the newest first.
pub fn predecessor_buffer_ids(buffers: &Vec<Buffer>, current_buffer_id: &str) -> (ids: Vec<String>)
    ensures
        texts(ids@) == predecessors(views(buffers@), current_buffer_id@),
        forall|k: int|
            0 <= k < ids@.len() ==> first_index(
                views(buffers@),
                |b: BufferView| b.id == (#[trigger] ids@[k])@,
            ) is Some,
{
    let ghost all = views(buffers@);
    let connection = connection_prefix_of(current_buffer_id);
    let ghost conn = opt_text(connection);
    let mut ids: Vec<String> = Vec::new();
    let mut at: usize = match buffer_position(buffers, current_buffer_id) {
        Some(at) => at,
        None => {
            assert(texts(ids@) =~= Seq::empty());
            return ids;
        },
    };
    let mut seen = TextSet::new();
    let ghost whole = predecessors(all, current_buffer_id@);
    assert(texts(ids@) + predecessors_from(all, conn, at as int, seen@) =~= whole);
    loop
        invariant
            at < buffers@.len(),
            all == views(buffers@),
            conn == opt_text(connection),
            whole == predecessors(all, current_buffer_id@),
            texts(ids@) + predecessors_from(all, conn, at as int, seen@) == whole,
            forall|k: int|
                0 <= k < ids@.len() ==> first_index(
                    all,
                    |b: BufferView| b.id == (#[trigger] ids@[k])@,
                ) is Some,
        decreases unseen_predecessors(all, seen@),
    {
        assert(all[at as int] == buffers@[at as int]@);
        assert(texts(ids@) + Seq::<Seq<char>>::empty() =~= texts(ids@));
        let room_id = match &buffers[at].matrix_predecessor_room_id {
            Some(room_id) => room_id.clone(),
            None => {
                return ids;
            },
        };
        if seen.contains(room_id.as_str()) {
            return ids;
        }
        let room = room_id.as_str();
        let connection_ref = &connection;
        let found = |b: &Buffer| -> (r: bool)
            ensures
                r == is_room(b@, opt_text(*connection_ref), room_id@),
            {
                !b.is_matrix_thread() && crate::text::opt_is(&b.matrix_room_id, room)
                    && is_on_connection(connection_ref, b.id.as_str())
            };
        match position_from(
            buffers.as_slice(),
            0,
            found,
            Ghost(|b: BufferView| is_room(b, conn, room_id@)),
        ) {
            Some(i) => {
                proof {
                    lemma_one_seen(all, at as int, seen@);
                }
                assert(all[i as int] == buffers@[i as int]@);
                let ghost before = ids@;
                let id = buffers[i].id.clone();
                ids.push(id);
                proof {
                    assert(texts(ids@) =~= texts(before).push(all[i as int].id));
                    assert(texts(before).push(all[i as int].id) + predecessors_from(
                        all,
                        conn,
                        i as int,
                        seen@.insert(room_id@),
                    ) =~= texts(before) + (seq![all[i as int].id] + predecessors_from(
                        all,
                        conn,
                        i as int,
                        seen@.insert(room_id@),
                    )));
                    assert forall|k: int| 0 <= k < ids@.len() implies first_index(
                        all,
                        |b: BufferView| b.id == (#[trigger] ids@[k])@,
                    ) is Some by {
                        if k == before.len() {
                            let p = |b: BufferView| b.id == ids@[k]@;
                            lemma_first_from(all, p, 0);
                            assert(p(all[i as int]));
                        } else {
                            assert(ids@[k] == before[k]);
                        }
                    }
                }
                seen.insert(room_id);
                at = i;
            },
            None => {
                return ids;
            },
        }
    }
}

/// Where older history is to be loaded next: in the buffer itself or, once it
/// has no more, in the nearest predecessor that has.
pub open spec fn load_target(
    buffers: Seq<BufferView>,
    id: Seq<char>,
    exhausted: Set<Seq<char>>,
) -> Option<Seq<char>> {
    let candidates = seq![id] + predecessors(buffers, id);
    match first_index(candidates, |c: Seq<char>| !exhausted.contains(c)) {
        Some(i) => Some(candidates[i]),
        None => None,
    }
}

pub fn upgrade_history_load_buffer_id(
    buffers: &Vec<Buffer>,
    current_buffer_id: &str,
    exhausted_buffer_ids: &TextSet,
) -> (target: Option<String>)
    ensures
        opt_text(target) == load_target(
            views(buffers@),
            current_buffer_id@,
            exhausted_buffer_ids@,
        ),
{
    let ghost p = |c: Seq<char>| !exhausted_buffer_ids@.contains(c);
    let ids = predecessor_buffer_ids(buffers, current_buffer_id);
    let ghost candidates = seq![current_buffer_id@] + texts(ids@);
    if !exhausted_buffer_ids.contains(current_buffer_id) {
        assert(candidates[0] == current_buffer_id@);
        return Some(current_buffer_id.to_owned());
    }
    let mut i: usize = 0;
    assert(first_index(candidates, p) == first_from(candidates, p, 1));
    while i < ids.len()
        invariant
            i <= ids@.len(),
            p == (|c: Seq<char>| !exhausted_buffer_ids@.contains(c)),
            candidates == seq![current_buffer_id@] + texts(ids@),
            texts(ids@) == predecessors(views(buffers@), current_buffer_id@),
            first_index(candidates, p) == first_from(candidates, p, i + 1),
        decreases ids@.len() - i,
    {
        assert(candidates[i + 1] == ids@[i as int]@);
        if !exhausted_buffer_ids.contains(ids[i].as_str()) {
            return Some(ids[i].clone());
        }
        i = i + 1;
    }
    None
}

// ---------------------------------------------------------------------------
// One history out of several rooms
// ---------------------------------------------------------------------------

/// A line of a history, with the rank of the room it comes from; newer rooms
/// have higher ranks.
pub struct RankedLine {
    pub rank: usize,
    pub inherited: bool,
    pub line: Line,
}

pub ghost struct RankedView {
    pub rank: usize,
    pub inherited: bool,
    pub line: LineView,
}

impl View for RankedLine {
    type V = RankedView;

    open spec fn view(&self) -> RankedView {
        RankedView { rank: self.rank, inherited: self.inherited, line: self.line@ }
    }
}

/// The id of an inherited line. Line ids are unique only inside one buffer.
pub open spec fn inherited_id(buffer_id: Seq<char>, line_id: Seq<char>) -> Seq<char> {
    "upgrade-history:"@ + buffer_id + ":"@ + line_id
}

/// The lines of a predecessor.
pub open spec fn inherited_lines(b: BufferView, rank: usize) -> Seq<RankedView> {
    b.messages.map_values(
        |l: LineView|
            RankedView {
                rank,
                inherited: true,
                line: LineView { id: inherited_id(b.id, l.id), ..l },
            },
    )
}

/// The lines of the buffer itself.
pub open spec fn own_lines(b: BufferView, rank: usize) -> Seq<RankedView> {
    b.messages.map_values(|l: LineView| RankedView { rank, inherited: false, line: l })
}

/// The first buffer with an id.
pub open spec fn first_buffer(buffers: Seq<BufferView>, id: Seq<char>) -> BufferView {
    buffers[first_index(buffers, |b: BufferView| b.id == id)->0]
}

/// The lines of the oldest `n` predecessors, the oldest first. `ids` has the
/// newest first.
pub open spec fn oldest_lines(buffers: Seq<BufferView>, ids: Seq<Seq<char>>, n: nat) -> Seq<
    RankedView,
>
    decreases n,
{
    if n == 0 || n > ids.len() {
        Seq::empty()
    } else {
        oldest_lines(buffers, ids, (n - 1) as nat) + inherited_lines(
            first_buffer(buffers, ids[ids.len() - n]),
            (n - 1) as usize,
        )
    }
}

/// The lines of a buffer and of all its predecessors.
pub open spec fn all_ranked(buffers: Seq<BufferView>, id: Seq<char>) -> Seq<RankedView> {
    let ids = predecessors(buffers, id);
    oldest_lines(buffers, ids, ids.len()) + own_lines(
        first_buffer(buffers, id),
        ids.len() as usize,
    )
}

/// Whether no newer room has the event of a line. An event may take several
/// lines, so whole events are kept or dropped.
pub open spec fn is_newest(all: Seq<RankedView>, r: RankedView) -> bool {
    r.line.matrix_event_id is None || forall|j: int|
        0 <= j < all.len() && (#[trigger] all[j]).line.matrix_event_id == r.line.matrix_event_id
            ==> all[j].rank <= r.rank
}

/// By time, and at one time the older room first.
pub open spec fn ranked_le(a: RankedView, b: RankedView) -> bool {
    before(a.line.timestamp, b.line.timestamp) || a.line.timestamp == b.line.timestamp && a.rank
        <= b.rank
}

/// The lines that are kept, in order.
pub open spec fn merged(all: Seq<RankedView>) -> Seq<RankedView> {
    sorted_by(
        all.filter(|r: RankedView| is_newest(all, r)),
        |a: RankedView, b: RankedView| ranked_le(a, b),
    )
}

/// The end of a list, at most as long as a buffer may be.
pub open spec fn newest_part<A>(list: Seq<A>) -> Seq<A> {
    if list.len() > MAX_STORED_LINES {
        list.skip(list.len() - MAX_STORED_LINES)
    } else {
        list
    }
}

pub open spec fn ranked_lines(list: Seq<RankedView>) -> Seq<LineView> {
    list.map_values(|r: RankedView| r.line)
}

/// The history of a buffer with that of the rooms that its room replaced.
#[verifier::opaque]
pub open spec fn composed_lines(buffers: Seq<BufferView>, id: Seq<char>) -> Seq<LineView> {
    if first_index(buffers, |b: BufferView| b.id == id) is None {
        Seq::empty()
    } else {
        ranked_lines(newest_part(merged(all_ranked(buffers, id))))
    }
}

/// The ids of the lines in a history that come from replaced rooms.
#[verifier::opaque]
pub open spec fn composed_inherited(buffers: Seq<BufferView>, id: Seq<char>) -> Set<Seq<char>> {
    if first_index(buffers, |b: BufferView| b.id == id) is None {
        Set::empty()
    } else {
        let list = merged(all_ranked(buffers, id));
        Set::new(
            |line_id: Seq<char>|
                (exists|i: int|
                    0 <= i < list.len() && (#[trigger] list[i]).inherited && list[i].line.id
                        == line_id) && has_line(composed_lines(buffers, id), line_id),
        )
    }
}

pub open spec fn has_line(lines: Seq<LineView>, id: Seq<char>) -> bool {
    exists|i: int| 0 <= i < lines.len() && (#[trigger] lines[i]).id == id
}

fn push_inherited(out: &mut Vec<RankedLine>, buffer: &Buffer, rank: usize)
    ensures
        views(final(out)@) == views(old(out)@) + inherited_lines(buffer@, rank),
{
    let ghost start = views(out@);
    let head = join3("upgrade-history:", buffer.id.as_str(), ":");
    let mut i: usize = 0;
    assert(start + inherited_lines(buffer@, rank).take(0) =~= start);
    while i < buffer.messages.len()
        invariant
            i <= buffer.messages@.len(),
            head@ == "upgrade-history:"@ + buffer@.id + ":"@,
            views(out@) == start + inherited_lines(buffer@, rank).take(i as int),
        decreases buffer.messages@.len() - i,
    {
        let ghost before = out@;
        let source = &buffer.messages[i];
        assert(buffer@.messages[i as int] == source@);
        let mut line = source.clone();
        line.id = join2(head.as_str(), source.id.as_str());
        out.push(RankedLine { rank, inherited: true, line });
        proof {
            assert(out@.last()@ == inherited_lines(buffer@, rank)[i as int]);
            assert(views(out@) =~= views(before).push(inherited_lines(buffer@, rank)[i as int]));
            assert(inherited_lines(buffer@, rank).take(i + 1) =~= inherited_lines(
                buffer@,
                rank,
            ).take(i as int).push(inherited_lines(buffer@, rank)[i as int]));
            assert(views(out@) =~= start + inherited_lines(buffer@, rank).take(i + 1));
        }
        i = i + 1;
    }
    assert(inherited_lines(buffer@, rank).take(i as int) =~= inherited_lines(buffer@, rank));
}

fn push_own(out: &mut Vec<RankedLine>, buffer: &Buffer, rank: usize)
    ensures
        views(final(out)@) == views(old(out)@) + own_lines(buffer@, rank),
{
    let ghost start = views(out@);
    let mut i: usize = 0;
    assert(start + own_lines(buffer@, rank).take(0) =~= start);
    while i < buffer.messages.len()
        invariant
            i <= buffer.messages@.len(),
            views(out@) == start + own_lines(buffer@, rank).take(i as int),
        decreases buffer.messages@.len() - i,
    {
        let ghost before = out@;
        assert(buffer@.messages[i as int] == buffer.messages@[i as int]@);
        let line = buffer.messages[i].clone();
        out.push(RankedLine { rank, inherited: false, line });
        proof {
            assert(views(out@) =~= views(before).push(own_lines(buffer@, rank)[i as int]));
            assert(own_lines(buffer@, rank).take(i + 1) =~= own_lines(buffer@, rank).take(
                i as int,
            ).push(own_lines(buffer@, rank)[i as int]));
            assert(views(out@) =~= start + own_lines(buffer@, rank).take(i + 1));
        }
        i = i + 1;
    }
    assert(own_lines(buffer@, rank).take(i as int) =~= own_lines(buffer@, rank));
}

/// The highest rank at which each event occurs among the first `n` lines.
spec fn highest_ranks(all: Seq<RankedView>, n: int, ranks: Map<Seq<char>, usize>) -> bool {
    &&& forall|j: int|
        0 <= j < n && (#[trigger] all[j]).line.matrix_event_id is Some ==> ranks.contains_key(
            all[j].line.matrix_event_id->0,
        ) && all[j].rank <= ranks[all[j].line.matrix_event_id->0]
    &&& forall|e: Seq<char>| #[trigger]
        ranks.contains_key(e) ==> exists|j: int|
            0 <= j < n && (#[trigger] all[j]).line.matrix_event_id == Some(e) && all[j].rank
                == ranks[e]
}

fn event_ranks(list: &Vec<RankedLine>) -> (ranks: StringHashMap<usize>)
    ensures
        highest_ranks(views(list@), list@.len() as int, ranks@),
{
    let ghost all = views(list@);
    let mut ranks: StringHashMap<usize> = StringHashMap::new();
    let mut i: usize = 0;
    while i < list.len()
        invariant
            i <= list@.len(),
            all == views(list@),
            highest_ranks(all, i as int, ranks@),
        decreases list@.len() - i,
    {
        assert(all[i as int] == list@[i as int]@);
        let ghost before = ranks@;
        let rank: usize = list[i].rank;
        match &list[i].line.matrix_event_id {
            Some(event_id) => {
                let higher: bool = match ranks.get(event_id.as_str()) {
                    Some(known) => *known < rank,
                    None => true,
                };
                if higher {
                    ranks.insert(event_id.clone(), rank);
                }
                proof {
                    assert forall|e: Seq<char>| #[trigger] ranks@.contains_key(e) implies exists|
                        j: int,
                    |
                        0 <= j < i + 1 && (#[trigger] all[j]).line.matrix_event_id == Some(e)
                            && all[j].rank == ranks@[e] by {
                        if e == event_id@ && higher {
                            assert(all[i as int].rank == ranks@[e]);
                        } else {
                            assert(before.contains_key(e));
                            let j = choose|j: int|
                                0 <= j < i && (#[trigger] all[j]).line.matrix_event_id == Some(e)
                                    && all[j].rank == before[e];
                            assert(all[j].rank == ranks@[e]);
                        }
                    }
                }
            },
            None => {
                proof {
                    assert forall|e: Seq<char>| #[trigger] ranks@.contains_key(e) implies exists|
                        j: int,
                    |
                        0 <= j < i + 1 && (#[trigger] all[j]).line.matrix_event_id == Some(e)
                            && all[j].rank == ranks@[e] by {
                        let j = choose|j: int|
                            0 <= j < i && (#[trigger] all[j]).line.matrix_event_id == Some(e)
                                && all[j].rank == before[e];
                        assert(all[j].rank == ranks@[e]);
                    }
                }
            },
        }
        i = i + 1;
    }
    ranks
}

proof fn lemma_newest_by_rank(all: Seq<RankedView>, ranks: Map<Seq<char>, usize>, r: RankedView)
    requires
        highest_ranks(all, all.len() as int, ranks),
        r.line.matrix_event_id is Some,
    ensures
        ranks.contains_key(r.line.matrix_event_id->0) && ranks[r.line.matrix_event_id->0] == r.rank
            ==> is_newest(all, r),
        all.contains(r) ==> (is_newest(all, r) <==> ranks.contains_key(r.line.matrix_event_id->0)
            && ranks[r.line.matrix_event_id->0] == r.rank),
{
    let e = r.line.matrix_event_id->0;
    if all.contains(r) {
        let k = choose|k: int| 0 <= k < all.len() && all[k] == r;
        assert(ranks.contains_key(e));
        let j = choose|j: int|
            0 <= j < all.len() && (#[trigger] all[j]).line.matrix_event_id == Some(e) && all[j].rank
                == ranks[e];
        if is_newest(all, r) {
            assert(all[j].rank <= r.rank);
        }
    }
}

/// The history of a buffer together with that of the rooms that its room
/// replaced, and the ids of the lines that come from those.
pub fn composed_upgrade_history(buffers: &Vec<Buffer>, current_buffer_id: &str) -> (history: (
    VecDeque<Line>,
    StringHashSet,
))
    ensures
        views((history.0)@) == composed_lines(views(buffers@), current_buffer_id@),
        (history.1)@ == composed_inherited(views(buffers@), current_buffer_id@),
{
    reveal(composed_lines);
    reveal(composed_inherited);
    let ghost all_buffers = views(buffers@);
    let id = current_buffer_id;
    let at: usize = match buffer_position(buffers, current_buffer_id) {
        Some(at) => at,
        None => {
            let messages: VecDeque<Line> = VecDeque::new();
            assert(views(messages@) =~= Seq::empty());
            return (messages, StringHashSet::new());
        },
    };
    let ids = predecessor_buffer_ids(buffers, current_buffer_id);
    let n: usize = ids.len();
    let mut ranked: Vec<RankedLine> = Vec::new();
    let mut k: usize = 0;
    assert(views(ranked@) =~= oldest_lines(all_buffers, texts(ids@), 0));
    while k < n
        invariant
            k <= n,
            n == ids@.len(),
            all_buffers == views(buffers@),
            forall|k: int|
                0 <= k < ids@.len() ==> first_index(
                    views(buffers@),
                    |b: BufferView| b.id == (#[trigger] ids@[k])@,
                ) is Some,
            views(ranked@) == oldest_lines(all_buffers, texts(ids@), k as nat),
        decreases n - k,
    {
        let ghost place = ids@.len() - (k + 1);
        assert(texts(ids@)[place] == ids@[place]@);
        let source = &ids[n - 1 - k];
        assert(first_index(views(buffers@), |b: BufferView| b.id == ids@[place]@) is Some);
        match buffer_position(buffers, source.as_str()) {
            Some(i) => {
                assert(all_buffers[i as int] == buffers@[i as int]@);
                push_inherited(&mut ranked, &buffers[i], k);
            },
            None => {
                assert(false);
            },
        }
        k = k + 1;
    }
    assert(all_buffers[at as int] == buffers@[at as int]@);
    push_own(&mut ranked, &buffers[at], n);
    let ghost all = all_ranked(all_buffers, id@);
    assert(views(ranked@) == all);
    let ranks = event_ranks(&ranked);
    let ghost keep = |r: RankedView| is_newest(all, r);
    let mut kept: Vec<RankedLine> = Vec::new();
    proof {
        reveal(Seq::filter);
        assert(views(kept@) =~= all.take(0).filter(keep));
    }
    let ghost ranked_all = ranked@;
    for item in it: ranked
        invariant
            it.seq() == ranked_all,
            views(ranked_all) == all,
            keep == (|r: RankedView| is_newest(all, r)),
            highest_ranks(all, all.len() as int, ranks@),
            views(kept@) == all.take(it.index@ as int).filter(keep),
    {
        let ghost before = kept@;
        let ghost i = it.index@ as int;
        proof {
            lemma_filter_take(all, i, keep);
            assert(all[i] == item@);
            assert(all.contains(item@));
        }
        let stays: bool = match &item.line.matrix_event_id {
            Some(event_id) => {
                proof {
                    lemma_newest_by_rank(all, ranks@, item@);
                }
                match ranks.get(event_id.as_str()) {
                    Some(rank) => *rank == item.rank,
                    None => false,
                }
            },
            None => true,
        };
        if stays {
            kept.push(item);
            assert(views(kept@) =~= views(before).push(item@));
        }
    }
    assert(all.take(all.len() as int) =~= all);
    let compare = |a: &RankedLine, b: &RankedLine| -> (r: bool)
        ensures
            r == ranked_le(a@, b@),
        {
            a.line.timestamp.before(b.line.timestamp) || (a.line.timestamp.at_or_before(
                b.line.timestamp,
            ) && b.line.timestamp.at_or_before(a.line.timestamp) && a.rank <= b.rank)
        };
    let sorted = stable_sort(
        kept,
        compare,
        Ghost(|a: RankedView, b: RankedView| ranked_le(a, b)),
    );
    let ghost list = merged(all);
    assert(views(sorted@) == list);
    let total: usize = sorted.len();
    let skipped: usize = if total > MAX_STORED_LINES {
        total - MAX_STORED_LINES
    } else {
        0
    };
    let ghost part = newest_part(list);
    assert(part =~= list.skip(skipped as int));
    let mut messages: VecDeque<Line> = VecDeque::new();
    let mut old_ids = StringHashSet::new();
    let ghost sorted_all = sorted@;
    let mut count: usize = 0;
    assert(views(messages@) =~= ranked_lines(part.take(0)));
    for item in it: sorted
        invariant
            it.seq() == sorted_all,
            views(sorted_all) == list,
            count == it.index@,
            total == list.len(),
            skipped <= total,
            part == list.skip(skipped as int),
            views(messages@) == ranked_lines(
                part.take(
                    if count < skipped {
                        0
                    } else {
                        count - skipped
                    },
                ),
            ),
            inherited_among(list, count as int, old_ids@),
    {
        let ghost i = it.index@ as int;
        let ghost ids_before = old_ids@;
        let ghost before = messages@;
        assert(list[i] == item@);
        if item.inherited {
            old_ids.insert(item.line.id.clone());
        }
        proof {
            lemma_inherited_among(list, i, ids_before, old_ids@);
        }
        if count >= skipped {
            messages.push_back(item.line);
            proof {
                let k = i - skipped;
                assert(part[k] == list[i]);
                assert(views(messages@) =~= views(before).push(list[i].line));
                assert(ranked_lines(part.take(k + 1)) =~= ranked_lines(part.take(k)).push(
                    part[k].line,
                ));
            }
        }
        count = count + 1;
    }
    assert(part.take(part.len() as int) =~= part);
    let ghost lines = ranked_lines(part);
    let mut inherited = StringHashSet::new();
    let mut m: usize = 0;
    while m < messages.len()
        invariant
            m <= messages@.len(),
            views(messages@) == lines,
            forall|line_id: Seq<char>|
                #[trigger] inherited@.contains(line_id) <==> old_ids@.contains(line_id) && exists|
                    j: int,
                |
                    0 <= j < m && (#[trigger] lines[j]).id == line_id,
        decreases messages@.len() - m,
    {
        let ghost before = inherited@;
        assert(lines[m as int] == messages@[m as int]@);
        let line_id = &messages[m].id;
        if old_ids.contains(line_id.as_str()) {
            inherited.insert(line_id.clone());
        }
        proof {
            assert forall|line_id: Seq<char>|
                #[trigger] inherited@.contains(line_id) <==> old_ids@.contains(line_id) && exists|
                    j: int,
                |
                    0 <= j < m + 1 && (#[trigger] lines[j]).id == line_id by {
                if inherited@.contains(line_id) {
                    if before.contains(line_id) {
                        let j = choose|j: int| 0 <= j < m && (#[trigger] lines[j]).id == line_id;
                        assert(lines[j].id == line_id);
                    } else {
                        assert(lines[m as int].id == line_id);
                    }
                }
                if old_ids@.contains(line_id) && exists|j: int|
                    0 <= j < m + 1 && (#[trigger] lines[j]).id == line_id {
                    let j = choose|j: int| 0 <= j < m + 1 && (#[trigger] lines[j]).id == line_id;
                    if j < m {
                        assert(before.contains(line_id));
                    }
                }
            }
        }
        m = m + 1;
    }
    proof {
        assert(lines == composed_lines(all_buffers, id@));
        assert(inherited@ =~= composed_inherited(all_buffers, id@)) by {
            assert forall|line_id: Seq<char>| inherited@.contains(line_id) <==> composed_inherited(
                all_buffers,
                id@,
            ).contains(line_id) by {
                assert(has_line(lines, line_id) <==> exists|j: int|
                    0 <= j < m && (#[trigger] lines[j]).id == line_id);
                assert(old_ids@.contains(line_id) <==> exists|i: int|
                    0 <= i < list.len() && (#[trigger] list[i]).inherited && list[i].line.id
                        == line_id);
            }
        }
    }
    (messages, inherited)
}

/// The ids of the inherited lines among the first `n`.
spec fn inherited_among(list: Seq<RankedView>, n: int, ids: Set<Seq<char>>) -> bool {
    forall|line_id: Seq<char>|
        #[trigger] ids.contains(line_id) <==> exists|i: int|
            0 <= i < n && (#[trigger] list[i]).inherited && list[i].line.id == line_id
}

proof fn lemma_inherited_among(
    list: Seq<RankedView>,
    n: int,
    before: Set<Seq<char>>,
    after: Set<Seq<char>>,
)
    requires
        0 <= n < list.len(),
        inherited_among(list, n, before),
        after == (if list[n].inherited {
            before.insert(list[n].line.id)
        } else {
            before
        }),
    ensures
        inherited_among(list, n + 1, after),
{
    assert forall|line_id: Seq<char>|
        #[trigger] after.contains(line_id) <==> exists|i: int|
            0 <= i < n + 1 && (#[trigger] list[i]).inherited && list[i].line.id == line_id by {
        if after.contains(line_id) {
            if before.contains(line_id) {
                let i = choose|i: int|
                    0 <= i < n && (#[trigger] list[i]).inherited && list[i].line.id == line_id;
                assert(list[i].inherited);
            } else {
                assert(list[n].inherited);
            }
        }
        if exists|i: int|
            0 <= i < n + 1 && (#[trigger] list[i]).inherited && list[i].line.id == line_id {
            let i = choose|i: int|
                0 <= i < n + 1 && (#[trigger] list[i]).inherited && list[i].line.id == line_id;
            if i < n {
                assert(before.contains(line_id));
            }
        }
    }
}

/// A composed history is in the order of time, it is not longer than a buffer
/// may be, and no event occurs in it from two rooms.
pub proof fn composed_history_is_one_timeline(buffers: Seq<BufferView>, id: Seq<char>)
    ensures
        composed_lines(buffers, id).len() <= MAX_STORED_LINES,
        crate::order::is_chronological(composed_lines(buffers, id)),
        forall|line_id: Seq<char>| #[trigger]
            composed_inherited(buffers, id).contains(line_id) ==> has_line(
                composed_lines(buffers, id),
                line_id,
            ),
        forall|i: int, j: int|
            0 <= i < merged(all_ranked(buffers, id)).len() && 0 <= j < merged(
                all_ranked(buffers, id),
            ).len() && (#[trigger] merged(all_ranked(buffers, id))[i]).line.matrix_event_id is Some
                && merged(all_ranked(buffers, id))[i].line.matrix_event_id == (
            #[trigger] merged(all_ranked(buffers, id))[j]).line.matrix_event_id ==> merged(
                all_ranked(buffers, id),
            )[i].rank == merged(all_ranked(buffers, id))[j].rank,
{
    reveal(composed_lines);
    reveal(composed_inherited);
    let all = all_ranked(buffers, id);
    let keep = |r: RankedView| is_newest(all, r);
    let le = |a: RankedView, b: RankedView| ranked_le(a, b);
    let kept = all.filter(keep);
    let list = merged(all);
    let part = newest_part(list);
    assert(is_total_preorder(le));
    lemma_sorted_by_sorted(kept, le);
    lemma_sorted_by_permutation(kept, le);
    let lines = ranked_lines(part);
    let skipped = if list.len() > MAX_STORED_LINES {
        list.len() - MAX_STORED_LINES
    } else {
        0
    };
    assert(part =~= list.skip(skipped));
    let before_or_same = |a: LineView, b: LineView| crate::order::line_at_or_before(a, b);
    assert(is_sorted(lines, before_or_same)) by {
        assert forall|i: int, j: int| 0 <= i < j < lines.len() implies before_or_same(
            #[trigger] lines[i],
            #[trigger] lines[j],
        ) by {
            assert(le(list[skipped + i], list[skipped + j]));
        }
    }
    assert forall|i: int| 0 <= i < list.len() implies all.contains(#[trigger] list[i]) && is_newest(
        all,
        list[i],
    ) by {
        broadcast use vstd::seq_lib::group_to_multiset_ensures;

        assert(list.to_multiset().count(list[i]) > 0);
        assert(kept.to_multiset().count(list[i]) > 0);
        assert(kept.contains(list[i]));
        let k = choose|k: int| 0 <= k < kept.len() && kept[k] == list[i];
        all.lemma_filter_pred(keep, k);
        assert(keep(kept[k]));
        all.lemma_filter_contains_rev(keep, kept[k]);
    }
    assert forall|i: int, j: int|
        0 <= i < list.len() && 0 <= j < list.len() && (#[trigger] list[i]).line.matrix_event_id
            is Some && list[i].line.matrix_event_id == (
        #[trigger] list[j]).line.matrix_event_id implies list[i].rank == list[j].rank by {
        let a = choose|a: int| 0 <= a < all.len() && all[a] == list[i];
        let b = choose|b: int| 0 <= b < all.len() && all[b] == list[j];
        assert(is_newest(all, list[i]));
        assert(is_newest(all, list[j]));
        assert(all[b].rank <= list[i].rank);
        assert(all[a].rank <= list[j].rank);
    }
}

// ---------------------------------------------------------------------------
// The list of buffers
// ---------------------------------------------------------------------------

/// Whether a buffer is shown in the list of buffers. A thread and a room that
/// was replaced never are.
pub open spec fn visible(
    b: BufferView,
    show_hidden: bool,
    collapsed: Set<Seq<char>>,
    replaced: Set<Seq<char>>,
) -> bool {
    &&& !b.is_thread()
    &&& !(b.matrix_room_id is Some && replaced.contains(b.matrix_room_id->0))
    &&& !(b.hidden && !show_hidden)
    &&& (is_root(b) || !collapsed.contains(b.server))
}

pub fn buffer_visible_in_sidebar(
    buffer: &Buffer,
    show_hidden_buffers: bool,
    collapsed_servers: &TextSet,
    replaced_room_ids: &TextSet,
) -> (yes: bool)
    ensures
        yes == visible(
            buffer@,
            show_hidden_buffers,
            collapsed_servers@,
            replaced_room_ids@,
        ),
{
    let is_replaced = match &buffer.matrix_room_id {
        Some(room_id) => replaced_room_ids.contains(room_id.as_str()),
        None => false,
    };
    if buffer.is_matrix_thread() || is_replaced || (buffer.hidden && !show_hidden_buffers) {
        return false;
    }
    is_group_root(buffer) || !collapsed_servers.contains(buffer.server.as_str())
}

/// No setting brings a replaced room or a thread back into the list.
pub proof fn replaced_rooms_stay_out_of_the_list(
    buffers: Seq<BufferView>,
    b: BufferView,
    show_hidden: bool,
    collapsed: Set<Seq<char>>,
)
    requires
        b.is_thread() || b.matrix_room_id is Some && replaced_rooms(buffers).contains(
            b.matrix_room_id->0,
        ),
    ensures
        !visible(b, show_hidden, collapsed, replaced_rooms(buffers)),
{
}

/// A chat that is worth coming back to after a restart: no service buffer, no
/// thread, nothing hidden.
pub open spec fn is_restorable(b: BufferView) -> bool {
    !b.hidden && !b.is_thread() && !is_root(b)
}

pub fn is_restorable_chat_buffer(buffer: &Buffer) -> (yes: bool)
    ensures
        yes == is_restorable(buffer@),
{
    !buffer.hidden && !buffer.is_matrix_thread() && !is_group_root(buffer)
}

pub open spec fn is_destination(b: BufferView, replaced: Set<Seq<char>>) -> bool {
    is_restorable(b) && !(b.matrix_room_id is Some && replaced.contains(b.matrix_room_id->0))
}

/// The chat to open: the one that was open last, or else the first one.
pub open spec fn preferred_chat(buffers: Seq<BufferView>, last_name: Option<Seq<char>>) -> Option<
    Seq<char>,
> {
    let replaced = replaced_rooms(buffers);
    let first = match first_index(buffers, |b: BufferView| is_destination(b, replaced)) {
        Some(i) => Some(buffers[i].id),
        None => None,
    };
    match last_name {
        Some(name) => match first_index(
            buffers,
            |b: BufferView| is_destination(b, replaced) && b.full_name == name,
        ) {
            Some(i) => Some(buffers[i].id),
            None => first,
        },
        None => first,
    }
}

fn is_chat_destination(b: &Buffer, replaced: &TextSet) -> (yes: bool)
    ensures
        yes == is_destination(b@, replaced@),
{
    is_restorable_chat_buffer(b) && !(match &b.matrix_room_id {
        Some(room_id) => replaced.contains(room_id.as_str()),
        None => false,
    })
}

pub fn preferred_chat_buffer_id(buffers: &Vec<Buffer>, last_chat_buffer_name: Option<&str>) -> (id:
    Option<String>)
    ensures
        opt_text(id) == preferred_chat(
            views(buffers@),
            crate::text::opt_str(last_chat_buffer_name),
        ),
{
    let replaced = replaced_matrix_room_ids(buffers);
    let replaced_ref = &replaced;
    let ghost set = replaced@;
    match last_chat_buffer_name {
        Some(name) => {
            let found = |b: &Buffer| -> (r: bool)
                ensures
                    r == (is_destination(b@, replaced_ref@) && b@.full_name == name@),
                { is_chat_destination(b, replaced_ref) && same_text(b.full_name.as_str(), name) };
            match position_from(
                buffers.as_slice(),
                0,
                found,
                Ghost(|b: BufferView| is_destination(b, set) && b.full_name == name@),
            ) {
                Some(i) => {
                    assert(views(buffers@)[i as int] == buffers@[i as int]@);
                    return Some(buffers[i].id.clone());
                },
                None => {},
            }
        },
        None => {},
    }
    let found = |b: &Buffer| -> (r: bool)
        ensures
            r == is_destination(b@, replaced_ref@),
        { is_chat_destination(b, replaced_ref) };
    match position_from(
        buffers.as_slice(),
        0,
        found,
        Ghost(|b: BufferView| is_destination(b, set)),
    ) {
        Some(i) => {
            assert(views(buffers@)[i as int] == buffers@[i as int]@);
            Some(buffers[i].id.clone())
        },
        None => None,
    }
}

} // verus!
