//! Notifications about highlights.
use vstd::prelude::*;
use crate::ansi::{strip_ansi, stripped};
use crate::collections::TextMap;
use crate::state::{Action, ActionView, AppView, WeeChatApp};
use crate::text::{join3, starts_with, str_starts_with, texts};

verus! {

/// How long a buffer stays quiet after a notification, in nanoseconds.
pub const NOTIFICATION_COOLDOWN: u64 = 3_000_000_000;

/// Whether a buffer is named like a channel.
pub open spec fn is_channel_like(name: Seq<char>) -> bool {
    starts_with(name, "#"@) || starts_with(name, "&"@) || starts_with(name, "!"@)
}

/// The title of a notification: the channel and the sender, or the sender alone
/// for a private message.
pub open spec fn notification_title(name: Seq<char>, sender: Seq<char>) -> Seq<char> {
    if sender.len() == 0 {
        name
    } else if is_channel_like(name) {
        name + " — "@ + sender
    } else {
        sender
    }
}

impl AppView {
    /// Whether a buffer has raised a notification just now.
    pub open spec fn is_quiet(self, id: Seq<char>, ticks: u64) -> bool {
        self.last_notif_at.contains_key(id) && ticks - self.last_notif_at[id]
            < NOTIFICATION_COOLDOWN
    }

    pub open spec fn notified(
        self,
        id: Seq<char>,
        name: Seq<char>,
        prefix: Seq<char>,
        message: Seq<char>,
        ticks: u64,
    ) -> AppView {
        if self.is_quiet(id, ticks) {
            self
        } else {
            AppView {
                last_notif_at: self.last_notif_at.insert(id, ticks),
                request_attention: true,
                ..self
            }.doing(
                ActionView::Notify {
                    title: notification_title(name, stripped(prefix)),
                    body: stripped(message),
                },
            )
        }
    }
}

fn title_for(name: &str, sender: String) -> (title: String)
    ensures
        title@ == notification_title(name@, sender@),
{
    if sender.as_str().is_empty() {
        name.to_owned()
    } else if str_starts_with(name, "#") || str_starts_with(name, "&") || str_starts_with(
        name,
        "!",
    ) {
        join3(name, " — ", sender.as_str())
    } else {
        sender
    }
}

impl WeeChatApp {
    fn note_notification(&mut self, buffer_id: &str, ticks: u64)
        ensures
            final(self)@ == (AppView {
                last_notif_at: old(self)@.last_notif_at.insert(buffer_id@, ticks),
                request_attention: true,
                ..old(self)@
            }),
            old(self).wf() ==> final(self).wf(),
            final(self).buffers@ == old(self).buffers@,
    {
        let ghost start = self@;
        self.last_notif_at.insert(buffer_id.to_owned(), ticks);
        self.request_attention = true;
        assert(self@.profiles == start.profiles);
    }

    /// Raises a notification about a highlight, unless the buffer raised one
    /// just now.
    pub fn notify_highlight(
        &mut self,
        buffer_id: &str,
        buffer_name: &str,
        prefix: &str,
        message: &str,
        ticks: u64,
    )
        ensures
            final(self)@ == old(self)@.notified(
                buffer_id@,
                buffer_name@,
                prefix@,
                message@,
                ticks,
            ),
            old(self).wf() ==> final(self).wf(),
            final(self).buffers@ == old(self).buffers@,
    {
        let quiet: bool = match self.last_notif_at.get(buffer_id) {
            Some(last) => ticks < *last || ticks - *last < NOTIFICATION_COOLDOWN,
            None => false,
        };
        if quiet {
            return ;
        }
        self.note_notification(buffer_id, ticks);
        let title = title_for(buffer_name, strip_ansi(prefix));
        let body = strip_ansi(message);
        self.act(Action::Notify { title, body });
    }
}

/// Two highlights of one buffer within the cooldown raise one notification.
pub proof fn highlights_in_a_row_notify_once(
    state: AppView,
    id: Seq<char>,
    name: Seq<char>,
    prefix: Seq<char>,
    message: Seq<char>,
    first: u64,
    second: u64,
)
    requires
        first <= second < first + NOTIFICATION_COOLDOWN,
        !state.is_quiet(id, first),
    ensures
        ({
            let once = state.notified(id, name, prefix, message, first);
            once.outbox.len() == state.outbox.len() + 1 && once.notified(
                id,
                name,
                prefix,
                message,
                second,
            ) == once
        }),
{
}

/// How many buffers may have raised a notification before old ones are
/// forgotten.
pub const NOTIFICATION_LIMIT: usize = 200;

/// How long a notification is remembered at least, in nanoseconds.
pub const NOTIFICATION_MEMORY: u64 = 300_000_000_000;

/// The notifications that are not old.
pub open spec fn recent(map: Map<Seq<char>, u64>, ticks: u64) -> Map<Seq<char>, u64> {
    Map::new(
        |id: Seq<char>| map.contains_key(id) && ticks - map[id] < NOTIFICATION_MEMORY,
        |id: Seq<char>| map[id],
    )
}

impl AppView {
    /// The state without old notifications, where there are too many.
    pub open spec fn notifications_pruned(self, ticks: u64) -> AppView {
        AppView {
            last_notif_at: if self.last_notif_at.dom().len() > NOTIFICATION_LIMIT {
                recent(self.last_notif_at, ticks)
            } else {
                self.last_notif_at
            },
            ..self
        }
    }
}

fn forget_old(map: &mut TextMap<u64>, ticks: u64)
    ensures
        final(map)@ == recent(old(map)@, ticks),
{
    let ghost all = map@;
    let list = map.keys();
    let mut i: usize = 0;
    while i < list.len()
        invariant
            i <= list@.len(),
            texts(list@).to_set() == all.dom(),
            forall|id: Seq<char>| #[trigger]
                map@.contains_key(id) <==> all.contains_key(id) && !(ticks - all[id]
                    >= NOTIFICATION_MEMORY && texts(list@).take(i as int).contains(id)),
            forall|id: Seq<char>| #[trigger] map@.contains_key(id) ==> map@[id] == all[id],
        decreases list@.len() - i,
    {
        let id = list[i].as_str();
        let ghost head = texts(list@).take(i as int);
        let ghost more = texts(list@).take(i + 1);
        proof {
            assert(more =~= head.push(id@));
            assert(texts(list@)[i as int] == id@);
            assert(texts(list@).to_set().contains(id@));
            assert forall|t: Seq<char>| more.contains(t) <==> head.contains(t) || t == id@ by {
                if head.contains(t) {
                    let k = choose|k: int| 0 <= k < head.len() && head[k] == t;
                    assert(more[k] == t);
                }
                if t == id@ {
                    assert(more[i as int] == t);
                }
            }
        }
        let stale = match map.get(id) {
            Some(last) => ticks >= *last && ticks - *last >= NOTIFICATION_MEMORY,
            None => false,
        };
        if stale {
            map.remove(id);
        }
        i = i + 1;
    }
    proof {
        assert(texts(list@).take(i as int) =~= texts(list@));
        assert forall|id: Seq<char>| all.contains_key(id) implies texts(list@).contains(id) by {
            assert(texts(list@).to_set().contains(id));
        }
        assert(map@ =~= recent(all, ticks));
    }
}

impl WeeChatApp {
    /// Forgets old notifications where there are too many.
    pub fn prune_notifications(&mut self, ticks: u64)
        ensures
            final(self)@ == old(self)@.notifications_pruned(ticks),
            old(self).wf() ==> final(self).wf(),
    {
        let ghost before = self@;
        if self.last_notif_at.len() > NOTIFICATION_LIMIT {
            forget_old(&mut self.last_notif_at, ticks);
        }
        assert(self@.buffers == before.buffers);
    }
}

/// Forgetting never lets a buffer notify too soon.
pub proof fn pruning_keeps_the_cooldown(state: AppView, id: Seq<char>, ticks: u64)
    ensures
        state.notifications_pruned(ticks).is_quiet(id, ticks) == state.is_quiet(id, ticks),
{
}

} // verus!
