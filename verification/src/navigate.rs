//! Moving between buffers and through sent messages.
use vstd::prelude::*;
use crate::composer::{step_index, stepped};
use crate::models::{BufferActivity, BufferView};
use crate::order::{buffer_position, position_in, rows, saved_position};
use crate::relay_buffers::ids_of;
use crate::seqs::{first_index, lemma_filter_take, views};
use crate::state::{AppView, Clock, WeeChatApp};
use crate::text::{byte_len, bytes_in, clone_opt, opt_index, texts};

verus! {

// ---------------------------------------------------------------------------
// Sent messages
// ---------------------------------------------------------------------------

/// The place among the sent messages after a step: up to the first one, and
/// down beyond the last one to an empty input.
pub open spec fn history_step(index: Option<usize>, delta: int, len: int) -> Option<int> {
    match index {
        Some(i) => if delta < 0 && i == 0 {
            Some(0)
        } else if i + delta >= len {
            None
        } else if i + delta < 0 {
            Some(0)
        } else {
            Some(i + delta)
        },
        None => if delta < 0 {
            Some(len - 1)
        } else {
            None
        },
    }
}

impl AppView {
    /// The state after a step through the sent messages.
    pub open spec fn history_cycled(self, delta: int) -> AppView {
        if self.command_history.len() == 0 {
            self
        } else {
            let next = history_step(self.history_index, delta, self.command_history.len() as int);
            AppView {
                history_index: match next {
                    Some(i) => Some(i as usize),
                    None => None,
                },
                input_text: match next {
                    Some(i) => self.command_history[i],
                    None => Seq::empty(),
                },
                ..self
            }
        }
    }
}

fn history_step_of(index: Option<usize>, delta: i32, len: usize) -> (next: Option<usize>)
    requires
        len > 0,
    ensures
        opt_index(next) == history_step(index, delta as int, len as int),
        next is Some ==> next->0 < len,
{
    match index {
        Some(i) => {
            if delta < 0 && i == 0 {
                return Some(0);
            }
            let whole: i128 = i as i128 + delta as i128;
            if whole >= len as i128 {
                None
            } else if whole < 0 {
                Some(0)
            } else {
                Some(whole as usize)
            }
        },
        None => if delta < 0 {
            Some(len - 1)
        } else {
            None
        },
    }
}

impl WeeChatApp {
    fn put_history(&mut self, next: Option<usize>, text: String)
        ensures
            final(self)@ == (AppView {
                history_index: next,
                input_text: text@,
                ..old(self)@
            }),
            old(self).wf() ==> final(self).wf(),
    {
        let ghost before = self@;
        self.history_index = next;
        self.input_text = text;
        assert(self@.buffers == before.buffers);
    }

    /// Puts an older or a newer sent message into the input. The answer is its
    /// length in bytes, where there are sent messages.
    pub fn cycle_history(&mut self, delta: i32) -> (place: Option<usize>)
        ensures
            final(self)@ == old(self)@.history_cycled(delta as int),
            match place {
                Some(n) => old(self)@.command_history.len() > 0 && n == byte_len(
                    final(self)@.input_text,
                ),
                None => old(self)@.command_history.len() == 0,
            },
            old(self).wf() ==> final(self).wf(),
    {
        assert(self@.command_history.len() == self.command_history@.len());
        let n: usize = self.command_history.len();
        if n == 0 {
            return None;
        }
        let next = history_step_of(self.history_index, delta, n);
        let text = match next {
            Some(i) => {
                assert(self@.command_history[i as int] == self.command_history@[i as int]@);
                self.command_history[i].clone()
            },
            None => String::new(),
        };
        let place: usize = bytes_in(text.as_str());
        assert(next is None ==> text@ =~= Seq::empty());
        self.put_history(next, text);
        Some(place)
    }
}

// ---------------------------------------------------------------------------
// Buffers
// ---------------------------------------------------------------------------

impl AppView {
    /// The state after a step to another buffer, round and round. Threads are
    /// passed over.
    pub open spec fn buffer_cycled(self, delta: int, ticks: u64) -> AppView {
        let ids = ids_of(rows(self.buffers));
        if ids.len() == 0 {
            self
        } else {
            match self.selected_buffer_id {
                None => self.selecting(ids[0], ticks),
                Some(current) => match saved_position(ids, current) {
                    Some(i) => self.selecting(ids[stepped(i, delta, ids.len() as int)], ticks),
                    None => self,
                },
            }
        }
    }

    /// The buffers that can be reached by number.
    pub open spec fn numbered(self) -> Seq<BufferView> {
        self.buffers.filter(
            |b: BufferView| !b.is_thread() && (!b.hidden || self.show_hidden_buffers),
        )
    }

    /// The state after a jump to the nth buffer, counted from one.
    pub open spec fn jumped_to(self, n: int, ticks: u64) -> AppView {
        if 1 <= n <= self.numbered().len() {
            self.selecting(self.numbered()[n - 1].id, ticks)
        } else {
            self
        }
    }

    /// Whether a buffer is one that the next jump can lead to.
    pub open spec fn is_unread_stop(self, b: BufferView) -> bool {
        !b.is_thread() && !(b.hidden && !self.show_hidden_buffers) && (!(b.activity is Idle)
            || b.unread_count > 0)
    }

    /// The place of the next unread buffer behind `start`, from the `i`th on,
    /// round and round.
    pub open spec fn unread_from(self, start: int, i: int) -> Option<int>
        decreases self.buffers.len() + 1 - i,
    {
        if i < 1 || i > self.buffers.len() {
            None
        } else if self.is_unread_stop(self.buffers[(start + i) % self.buffers.len() as int]) {
            Some((start + i) % self.buffers.len() as int)
        } else {
            self.unread_from(start, i + 1)
        }
    }

    /// The state after a jump to the next unread buffer.
    pub open spec fn jumped_to_unread(self, ticks: u64) -> AppView {
        let start = match self.selected_buffer_id {
            Some(id) => match first_index(self.buffers, |b: BufferView| b.id == id) {
                Some(i) => i,
                None => 0,
            },
            None => 0,
        };
        match self.unread_from(start, 1) {
            Some(i) => self.selecting(self.buffers[i].id, ticks),
            None => self,
        }
    }
}

impl WeeChatApp {
    fn navigable_ids(&self) -> (ids: Vec<String>)
        ensures
            texts(ids@) == ids_of(rows(self@.buffers)),
    {
        crate::relay_buffers::row_ids(&self.buffers)
    }

    /// Goes to another buffer.
    pub fn cycle_buffer(&mut self, delta: i32, clock: &Clock)
        requires
            old(self).wf(),
        ensures
            final(self).wf(),
            final(self)@ == old(self)@.buffer_cycled(delta as int, clock.ticks),
    {
        let ids = self.navigable_ids();
        let ghost all = ids_of(rows(self@.buffers));
        assert(all.len() == ids@.len());
        if ids.len() == 0 {
            return ;
        }
        let selected = clone_opt(&self.selected_buffer_id);
        match selected {
            None => {
                assert(all[0] == ids@[0]@);
                self.select_buffer(ids[0].clone(), clock);
            },
            Some(current) => match position_in(&ids, current.as_str()) {
                Some(i) => {
                    let next: usize = step_index(i, delta as isize, ids.len());
                    assert(all[next as int] == ids@[next as int]@);
                    self.select_buffer(ids[next].clone(), clock);
                },
                None => {},
            },
        }
    }

    fn numbered_id(&self, n: usize) -> (id: Option<String>)
        ensures
            match id {
                Some(id) => 1 <= n <= self@.numbered().len() && id@ == self@.numbered()[n - 1].id,
                None => !(1 <= n <= self@.numbered().len()),
            },
    {
        let ghost all = self@.buffers;
        let ghost p = |b: BufferView| !b.is_thread() && (!b.hidden || self@.show_hidden_buffers);
        if n == 0 {
            return None;
        }
        let mut count: usize = 0;
        let mut i: usize = 0;
        proof {
            reveal(Seq::filter);
            assert(all.take(0).filter(p) =~= Seq::empty());
        }
        while i < self.buffers.len()
            invariant
                i <= self.buffers@.len(),
                all == views(self.buffers@),
                all == self@.buffers,
                p == (|b: BufferView|
                    !b.is_thread() && (!b.hidden || self@.show_hidden_buffers)),
                count == all.take(i as int).filter(p).len(),
                count < n,
                count <= i,
            decreases self.buffers@.len() - i,
        {
            let b = &self.buffers[i];
            proof {
                lemma_filter_take(all, i as int, p);
                assert(all[i as int] == b@);
            }
            if !b.is_matrix_thread() && (!b.hidden || self.show_hidden_buffers) {
                count = count + 1;
                if count == n {
                    proof {
                        lemma_filter_prefix(all, i + 1, p);
                    }
                    return Some(b.id.clone());
                }
            }
            i = i + 1;
        }
        assert(all.take(i as int) =~= all);
        None
    }

    /// Goes to the nth visible buffer, counted from one.
    pub fn jump_buffer_by_number(&mut self, n: usize, clock: &Clock)
        requires
            old(self).wf(),
        ensures
            final(self).wf(),
            final(self)@ == old(self)@.jumped_to(n as int, clock.ticks),
    {
        match self.numbered_id(n) {
            Some(id) => {
                self.select_buffer(id, clock);
            },
            None => {},
        }
    }

    fn next_unread(&self, start: usize) -> (at: Option<usize>)
        requires
            start <= self.buffers@.len(),
        ensures
            opt_index(at) == self@.unread_from(start as int, 1),
            at is Some ==> at->0 < self.buffers@.len(),
    {
        let len: usize = self.buffers.len();
        let mut i: usize = 1;
        while i <= len
            invariant
                1 <= i <= len + 1,
                len == self.buffers@.len(),
                start <= len,
                self@.unread_from(start as int, i as int) == self@.unread_from(start as int, 1),
            decreases len + 1 - i,
        {
            let at: usize = ((start as u128 + i as u128) % len as u128) as usize;
            let b = &self.buffers[at];
            assert(self@.buffers[at as int] == b@);
            if !b.is_matrix_thread() && !(b.hidden && !self.show_hidden_buffers) && (b.activity
                != BufferActivity::Idle || b.unread_count > 0) {
                return Some(at);
            }
            if i == len {
                assert(self@.unread_from(start as int, i + 1) is None);
                return None;
            }
            i = i + 1;
        }
        None
    }

    /// Goes to the next buffer with something unread in it.
    pub fn jump_next_unread(&mut self, clock: &Clock)
        requires
            old(self).wf(),
        ensures
            final(self).wf(),
            final(self)@ == old(self)@.jumped_to_unread(clock.ticks),
    {
        let start: usize = match &self.selected_buffer_id {
            Some(id) => match buffer_position(&self.buffers, id.as_str()) {
                Some(i) => i,
                None => 0,
            },
            None => 0,
        };
        match self.next_unread(start) {
            Some(i) => {
                assert(self@.buffers[i as int] == self.buffers@[i as int]@);
                let id = self.buffers[i].id.clone();
                self.select_buffer(id, clock);
            },
            None => {},
        }
    }
}

proof fn lemma_filter_prefix(all: Seq<BufferView>, n: int, p: spec_fn(BufferView) -> bool)
    requires
        0 <= n <= all.len(),
    ensures
        all.take(n).filter(p).len() <= all.filter(p).len(),
        forall|i: int|
            0 <= i < all.take(n).filter(p).len() ==> all.take(n).filter(p)[i] == #[trigger] all.filter(
                p,
            )[i],
    decreases all.len() - n,
{
    if n == all.len() {
        assert(all.take(n) =~= all);
    } else {
        lemma_filter_prefix(all, n + 1, p);
        lemma_filter_take(all, n, p);
        let short = all.take(n).filter(p);
        let long = all.take(n + 1).filter(p);
        assert forall|i: int| 0 <= i < short.len() implies short[i] == #[trigger] all.filter(
            p,
        )[i] by {
            assert(long[i] == short[i]);
        }
    }
}

} // verus!
