//! Where reading stopped.
use vstd::prelude::*;
use std::collections::VecDeque;
use crate::models::{Line, LineView};
use crate::seqs::{first_from, first_index, last_index, views};
use crate::text::{opt_index, opt_text, same_text};
use crate::time::{total_nanos, Timestamp};

verus! {

/// Stands for a place before everything that is loaded.
pub const BEFORE_FIRST_LOADED_LINE_ID: &'static str = "__weechatrs_before_first_loaded_line__";

/// The last line of a buffer that was read, and its time.
#[derive(Debug, PartialEq, Eq)]
pub struct SavedReadMarker {
    pub line_id: String,
    pub timestamp_nanos: i64,
}

pub ghost struct MarkerView {
    pub line_id: Seq<char>,
    pub timestamp_nanos: i64,
}

impl View for SavedReadMarker {
    type V = MarkerView;

    open spec fn view(&self) -> MarkerView {
        MarkerView { line_id: self.line_id@, timestamp_nanos: self.timestamp_nanos }
    }
}

impl Clone for SavedReadMarker {
    fn clone(&self) -> (copy: Self)
        ensures
            copy == *self,
    {
        SavedReadMarker { line_id: self.line_id.clone(), timestamp_nanos: self.timestamp_nanos }
    }
}

#[derive(Debug, Clone, Copy, PartialEq, Eq, Structural)]
pub enum VisitMarkerLocation {
    BeforeFirst,
    At(usize),
    Missing,
}

impl VisitMarkerLocation {
    /// Whether the divider stands before the line at `line_index`.
    pub open spec fn precedes(self, line_index: int) -> bool {
        match self {
            VisitMarkerLocation::BeforeFirst => true,
            VisitMarkerLocation::At(marker_index) => line_index > marker_index,
            VisitMarkerLocation::Missing => false,
        }
    }

    pub fn is_before(&self, line_index: usize) -> (yes: bool)
        ensures
            yes == self.precedes(line_index as int),
    {
        match self {
            VisitMarkerLocation::BeforeFirst => true,
            VisitMarkerLocation::At(marker_index) => line_index > *marker_index,
            VisitMarkerLocation::Missing => false,
        }
    }
}

/// The nanoseconds of a time, or zero where they do not fit.
pub open spec fn marker_nanos(t: Timestamp) -> i64 {
    if i64::MIN <= total_nanos(t) <= i64::MAX {
        total_nanos(t) as i64
    } else {
        0
    }
}

pub open spec fn marker_of(line: LineView) -> MarkerView {
    MarkerView { line_id: line.id, timestamp_nanos: marker_nanos(line.timestamp) }
}

/// Where a marker stands among the lines.
pub open spec fn marker_place(lines: Seq<LineView>, marker_id: Seq<char>) -> VisitMarkerLocation {
    if marker_id == BEFORE_FIRST_LOADED_LINE_ID@ {
        VisitMarkerLocation::BeforeFirst
    } else {
        match first_index(lines, |l: LineView| l.id == marker_id) {
            Some(i) => VisitMarkerLocation::At(i as usize),
            None => VisitMarkerLocation::Missing,
        }
    }
}

/// The place of the first line with an id.
pub fn line_position(lines: &VecDeque<Line>, id: &str) -> (at: Option<usize>)
    ensures
        opt_index(at) == first_index(views(lines@), |l: LineView| l.id == id@),
        at is Some ==> at->0 < lines@.len(),
{
    let ghost p = |l: LineView| l.id == id@;
    let mut i: usize = 0;
    while i < lines.len()
        invariant
            i <= lines@.len(),
            p == (|l: LineView| l.id == id@),
            first_index(views(lines@), p) == first_from(views(lines@), p, i as int),
        decreases lines@.len() - i,
    {
        assert(views(lines@)[i as int] == lines@[i as int]@);
        if same_text(lines[i].id.as_str(), id) {
            return Some(i);
        }
        i = i + 1;
    }
    None
}

pub fn visit_marker_location(lines: &VecDeque<Line>, marker_id: &str) -> (location:
    VisitMarkerLocation)
    ensures
        location == marker_place(views(lines@), marker_id@),
{
    if same_text(marker_id, BEFORE_FIRST_LOADED_LINE_ID) {
        VisitMarkerLocation::BeforeFirst
    } else {
        match line_position(lines, marker_id) {
            Some(i) => VisitMarkerLocation::At(i),
            None => VisitMarkerLocation::Missing,
        }
    }
}

pub fn nanos_or_zero(t: Timestamp) -> (nanos: i64)
    ensures
        nanos == marker_nanos(t),
{
    match t.timestamp_nanos_opt() {
        Some(n) => n,
        None => 0,
    }
}

impl MarkerView {
    /// The line that a marker stands at among those that are loaded: the one it
    /// names, or else the last one that is not newer.
    pub open spec fn restored(self, lines: Seq<LineView>) -> Option<Seq<char>> {
        match first_index(lines, |l: LineView| l.id == self.line_id) {
            Some(i) => Some(lines[i].id),
            None => match last_index(
                lines,
                |l: LineView| marker_nanos(l.timestamp) <= self.timestamp_nanos,
            ) {
                Some(i) => Some(lines[i].id),
                None => None,
            },
        }
    }

    pub open spec fn restored_visit(self, lines: Seq<LineView>) -> Option<Seq<char>> {
        if lines.len() == 0 {
            None
        } else {
            Some(
                match self.restored(lines) {
                    Some(id) => id,
                    None => BEFORE_FIRST_LOADED_LINE_ID@,
                },
            )
        }
    }

    /// The later of two markers; of two of one time the new one.
    pub open spec fn advanced(self, candidate: MarkerView) -> MarkerView {
        if candidate.timestamp_nanos >= self.timestamp_nanos {
            candidate
        } else {
            self
        }
    }
}

impl SavedReadMarker {
    pub fn from_line(line: &Line) -> (marker: Self)
        ensures
            marker@ == marker_of(line@),
    {
        SavedReadMarker {
            line_id: line.id.clone(),
            timestamp_nanos: nanos_or_zero(line.timestamp),
        }
    }

    pub fn restore_line_id(&self, lines: &VecDeque<Line>) -> (id: Option<String>)
        ensures
            opt_text(id) == self@.restored(views(lines@)),
    {
        let ghost all = views(lines@);
        match line_position(lines, self.line_id.as_str()) {
            Some(i) => {
                assert(all[i as int] == lines@[i as int]@);
                return Some(lines[i].id.clone());
            },
            None => {},
        }
        let ghost p = |l: LineView| marker_nanos(l.timestamp) <= self@.timestamp_nanos;
        let mut n: usize = lines.len();
        assert(all.take(n as int) =~= all);
        while n > 0
            invariant
                n <= lines@.len(),
                all == views(lines@),
                p == (|l: LineView| marker_nanos(l.timestamp) <= self@.timestamp_nanos),
                first_index(all, |l: LineView| l.id == self@.line_id) is None,
                last_index(all, p) == last_index(all.take(n as int), p),
            decreases n,
        {
            assert(all.take(n as int).last() == lines@[n - 1]@);
            assert(all.take(n as int).drop_last() =~= all.take(n - 1));
            if nanos_or_zero(lines[n - 1].timestamp) <= self.timestamp_nanos {
                return Some(lines[n - 1].id.clone());
            }
            n = n - 1;
        }
        None
    }

    pub fn restore_visit_line_id(&self, lines: &VecDeque<Line>) -> (id: Option<String>)
        ensures
            opt_text(id) == self@.restored_visit(views(lines@)),
    {
        if lines.len() == 0 {
            return None;
        }
        match self.restore_line_id(lines) {
            Some(id) => Some(id),
            None => Some(BEFORE_FIRST_LOADED_LINE_ID.to_owned()),
        }
    }

    pub fn advanced_with(&self, candidate: SavedReadMarker) -> (marker: SavedReadMarker)
        ensures
            marker@ == self@.advanced(candidate@),
    {
        if candidate.timestamp_nanos >= self.timestamp_nanos {
            candidate
        } else {
            self.clone()
        }
    }
}

/// A marker never moves back in time, and it advances to every candidate that
/// is not older.
pub proof fn marker_never_moves_backwards(marker: MarkerView, candidate: MarkerView)
    ensures
        marker.advanced(candidate).timestamp_nanos >= marker.timestamp_nanos,
        marker.advanced(candidate).timestamp_nanos >= candidate.timestamp_nanos,
        marker.advanced(candidate) == marker || marker.advanced(candidate) == candidate,
        candidate.timestamp_nanos >= marker.timestamp_nanos ==> marker.advanced(candidate)
            == candidate,
{
}

/// Advancing by several markers ends at the latest time, whatever comes first.
pub proof fn marker_advances_in_any_order(m: MarkerView, a: MarkerView, b: MarkerView)
    ensures
        m.advanced(a).advanced(b).timestamp_nanos == m.advanced(b).advanced(a).timestamp_nanos,
{
}

/// The marker of a line that is loaded is restored to that line's id.
pub proof fn marker_of_a_loaded_line_is_restored(lines: Seq<LineView>, at: int)
    requires
        0 <= at < lines.len(),
    ensures
        marker_of(lines[at]).restored(lines) == Some(lines[at].id),
        marker_of(lines[at]).restored_visit(lines) == Some(lines[at].id),
{
    let p = |l: LineView| l.id == marker_of(lines[at]).line_id;
    crate::seqs::lemma_first_from(lines, p, 0);
    match first_index(lines, p) {
        Some(i) => {},
        None => {
            assert(!p(lines[at]));
        },
    }
}

} // verus!
