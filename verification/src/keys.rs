//! What keys do.
use vstd::prelude::*;
use vstd::string::StringExecFns;
use crate::text::chars_of;

verus! {

// ---------------------------------------------------------------------------
// Pasting
// ---------------------------------------------------------------------------

/// A key, as far as pasting goes.
#[derive(Debug, Clone, Copy, PartialEq, Eq, Structural)]
pub enum PasteKey {
    Paste,
    V,
    Other,
}

/// An event of a frame, as far as pasting goes.
#[derive(Debug)]
pub enum InputEvent {
    /// Text that was pasted.
    Paste(String),
    Key {
        key: PasteKey,
        pressed: bool,
        /// Whether Ctrl or Command was held down with it.
        command: bool,
        ctrl: bool,
    },
    Other,
}

pub open spec fn is_paste(event: InputEvent) -> bool {
    match event {
        InputEvent::Paste(_) => true,
        InputEvent::Key { key, pressed, command, ctrl } => pressed && (key == PasteKey::Paste || key
            == PasteKey::V && (command || ctrl)),
        InputEvent::Other => false,
    }
}

pub open spec fn is_pasted_text(event: InputEvent) -> bool {
    match event {
        InputEvent::Paste(text) => text@.len() > 0,
        _ => false,
    }
}

pub open spec fn any_paste(events: Seq<InputEvent>) -> bool {
    exists|i: int| 0 <= i < events.len() && is_paste(#[trigger] events[i])
}

pub open spec fn any_pasted_text(events: Seq<InputEvent>) -> bool {
    exists|i: int| 0 <= i < events.len() && is_pasted_text(#[trigger] events[i])
}

/// Whether something was to be pasted.
pub fn paste_shortcut_pressed(events: &[InputEvent]) -> (yes: bool)
    ensures
        yes == any_paste(events@),
{
    let mut i: usize = 0;
    while i < events.len()
        invariant
            i <= events@.len(),
            forall|j: int| 0 <= j < i ==> !is_paste(#[trigger] events@[j]),
        decreases events@.len() - i,
    {
        let pasted = match &events[i] {
            InputEvent::Paste(_) => true,
            InputEvent::Key { key, pressed, command, ctrl } => *pressed && (*key == PasteKey::Paste
                || (*key == PasteKey::V && (*command || *ctrl))),
            InputEvent::Other => false,
        };
        assert(pasted == is_paste(events@[i as int]));
        if pasted {
            return true;
        }
        i = i + 1;
    }
    false
}

/// Whether the clipboard is to be searched for an image: something was to be
/// pasted and it was no text.
pub fn should_probe_clipboard_image(events: &[InputEvent]) -> (yes: bool)
    ensures
        yes == (any_paste(events@) && !any_pasted_text(events@)),
{
    let pasted = paste_shortcut_pressed(events);
    let mut i: usize = 0;
    while i < events.len()
        invariant
            i <= events@.len(),
            forall|j: int| 0 <= j < i ==> !is_pasted_text(#[trigger] events@[j]),
        decreases events@.len() - i,
    {
        let text = match &events[i] {
            InputEvent::Paste(text) => !text.as_str().is_empty(),
            _ => false,
        };
        assert(text == is_pasted_text(events@[i as int]));
        if text {
            return false;
        }
        i = i + 1;
    }
    pasted
}

/// Text that is pasted never leads to an upload.
pub proof fn pasted_text_is_never_an_image(events: Seq<InputEvent>, i: int)
    requires
        0 <= i < events.len(),
        is_pasted_text(events[i]),
    ensures
        any_paste(events),
        any_pasted_text(events),
{
    assert(is_paste(events[i]));
}

/// What a paste in a composer comes to.
#[derive(Debug, Clone, Copy, PartialEq, Eq, Structural)]
pub enum PasteStep {
    Nothing,
    /// Text was pasted: an older error is forgotten.
    Text,
    /// The clipboard is to be searched for an image.
    Image,
}

/// What a paste comes to: `menu` says that the menu asks for an image, and the
/// keys count where the composer has the focus.
pub fn paste_step(menu: bool, focused: bool, shortcut: bool, probe: bool) -> (step: PasteStep)
    ensures
        step == (if menu || focused && probe {
            PasteStep::Image
        } else if focused && shortcut {
            PasteStep::Text
        } else {
            PasteStep::Nothing
        }),
{
    if menu || (focused && probe) {
        PasteStep::Image
    } else if focused && shortcut {
        PasteStep::Text
    } else {
        PasteStep::Nothing
    }
}

// ---------------------------------------------------------------------------
// The composer
// ---------------------------------------------------------------------------

/// The keys pressed in a frame that the composer knows.
#[derive(Debug, Clone, Copy)]
pub struct ComposerKeys {
    pub tab: bool,
    pub enter: bool,
    pub up: bool,
    pub down: bool,
    pub escape: bool,
}

/// What the keys do in the composer.
#[derive(Debug, Clone, Copy, PartialEq, Eq, Structural)]
pub enum ComposerStep {
    CancelCommand,
    PreviousCommand,
    NextCommand,
    AcceptCommand,
    CancelMention,
    PreviousMention,
    NextMention,
    AcceptMention,
    Complete,
    OlderMessage,
    NewerMessage,
    Nothing,
}

/// The commands on offer have the keys first, then the mentions, and then the
/// input line.
pub open spec fn composer_choice(
    command_open: bool,
    mention_open: bool,
    keys: ComposerKeys,
) -> ComposerStep {
    if command_open {
        if keys.escape {
            ComposerStep::CancelCommand
        } else if keys.up {
            ComposerStep::PreviousCommand
        } else if keys.down {
            ComposerStep::NextCommand
        } else if keys.tab || keys.enter {
            ComposerStep::AcceptCommand
        } else {
            ComposerStep::Nothing
        }
    } else if mention_open {
        if keys.escape {
            ComposerStep::CancelMention
        } else if keys.up {
            ComposerStep::PreviousMention
        } else if keys.down {
            ComposerStep::NextMention
        } else if keys.tab || keys.enter {
            ComposerStep::AcceptMention
        } else {
            ComposerStep::Nothing
        }
    } else if keys.tab {
        ComposerStep::Complete
    } else if keys.up {
        ComposerStep::OlderMessage
    } else if keys.down {
        ComposerStep::NewerMessage
    } else {
        ComposerStep::Nothing
    }
}

/// What the keys do in the composer.
pub fn composer_step(command_open: bool, mention_open: bool, keys: ComposerKeys) -> (step:
    ComposerStep)
    ensures
        step == composer_choice(command_open, mention_open, keys),
{
    if command_open {
        if keys.escape {
            ComposerStep::CancelCommand
        } else if keys.up {
            ComposerStep::PreviousCommand
        } else if keys.down {
            ComposerStep::NextCommand
        } else if keys.tab || keys.enter {
            ComposerStep::AcceptCommand
        } else {
            ComposerStep::Nothing
        }
    } else if mention_open {
        if keys.escape {
            ComposerStep::CancelMention
        } else if keys.up {
            ComposerStep::PreviousMention
        } else if keys.down {
            ComposerStep::NextMention
        } else if keys.tab || keys.enter {
            ComposerStep::AcceptMention
        } else {
            ComposerStep::Nothing
        }
    } else if keys.tab {
        ComposerStep::Complete
    } else if keys.up {
        ComposerStep::OlderMessage
    } else if keys.down {
        ComposerStep::NewerMessage
    } else {
        ComposerStep::Nothing
    }
}

/// Whether the mentions on offer are looked up again: not in the frame in which
/// one was accepted or the list was closed.
pub fn refreshes_mentions(command_open: bool, mention_open: bool, keys: ComposerKeys) -> (yes: bool)
    ensures
        yes == !(!command_open && mention_open && (keys.tab || keys.enter || keys.escape)),
{
    command_open || !mention_open || !(keys.tab || keys.enter || keys.escape)
}

/// While commands or mentions are on offer, no key reaches the sent messages
/// or the completion of words.
pub proof fn open_lists_keep_their_keys(command_open: bool, mention_open: bool, keys: ComposerKeys)
    requires
        command_open || mention_open,
    ensures
        !(composer_choice(command_open, mention_open, keys) is OlderMessage),
        !(composer_choice(command_open, mention_open, keys) is NewerMessage),
        !(composer_choice(command_open, mention_open, keys) is Complete),
{
}

/// The selected characters of a text, from a cursor and the other end of the
/// selection: from the lesser to the greater, within the text, and the end of
/// the text where there is no cursor.
pub fn selected_char_range(cursor: Option<(usize, usize)>, text: &str) -> (range: (usize, usize))
    ensures
        range.0 == selection_end(cursor, text@.len(), true),
        range.1 == selection_end(cursor, text@.len(), false),
{
    let end: usize = chars_of(text).len();
    match cursor {
        Some((a, b)) => {
            let (first, last) = if a <= b {
                (a, b)
            } else {
                (b, a)
            };
            (
                if first < end {
                    first
                } else {
                    end
                },
                if last < end {
                    last
                } else {
                    end
                },
            )
        },
        None => (end, end),
    }
}

pub open spec fn selection_end(cursor: Option<(usize, usize)>, len: nat, first: bool) -> int {
    match cursor {
        Some((a, b)) => {
            let place = if first == (a <= b) {
                a
            } else {
                b
            };
            if place < len {
                place as int
            } else {
                len as int
            }
        },
        None => len as int,
    }
}

/// Notes the address that a frame opens. The first one stays.
pub fn open_url_once(open_url: &mut Option<String>, url: &str)
    ensures
        crate::text::opt_text(*final(open_url)) == (match *old(open_url) {
            Some(first) => Some(first@),
            None => Some(url@),
        }),
{
    if open_url.is_none() {
        *open_url = Some(url.to_owned());
    }
}

} // verus!
