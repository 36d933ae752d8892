//! The edit menu of an input.
use vstd::prelude::*;
use vstd::string::StringExecFns;
use crate::completion::{replace_selection, selected_text};
use crate::text::{chars_of, opt_text};

verus! {

/// What the edit menu of an input offers.
#[derive(Debug, Clone, Copy, PartialEq, Eq, Structural)]
pub struct EditMenu {
    /// Whether something can be cut, copied and deleted.
    pub has_selection: bool,
    pub can_paste: bool,
    pub can_select_all: bool,
}

/// What the edit menu offers, given the selected characters and the text on the
/// clipboard.
pub fn edit_menu(text: &str, start: usize, end: usize, clipboard: Option<&str>) -> (menu: EditMenu)
    ensures
        menu == (EditMenu {
            has_selection: start != end,
            can_paste: clipboard is Some && clipboard->0@.len() > 0,
            can_select_all: text@.len() > 0 && !(start == 0 && end == text@.len()),
        }),
{
    let n: usize = chars_of(text).len();
    EditMenu {
        has_selection: start != end,
        can_paste: match clipboard {
            Some(contents) => !contents.is_empty(),
            None => false,
        },
        can_select_all: n > 0 && !(start == 0 && end == n),
    }
}

/// An entry of the edit menu.
#[derive(Debug)]
pub enum EditChoice {
    Cut,
    Copy,
    Paste(String),
    Delete,
    SelectAll,
}

/// What choosing an entry comes to, besides the change to the text.
#[derive(Debug)]
pub struct EditOutcome {
    /// What goes to the clipboard.
    pub copied: Option<String>,
    /// The new selection, or the cursor twice.
    pub selection: Option<(usize, usize)>,
}

pub ghost struct OutcomeView {
    pub copied: Option<Seq<char>>,
    pub selection: Option<(usize, usize)>,
}

impl View for EditOutcome {
    type V = OutcomeView;

    open spec fn view(&self) -> OutcomeView {
        OutcomeView { copied: opt_text(self.copied), selection: self.selection }
    }
}

/// What stands in the place of the selection afterwards, where it changes.
pub open spec fn replacement(choice: EditChoice) -> Option<Seq<char>> {
    match choice {
        EditChoice::Cut | EditChoice::Delete => Some(Seq::empty()),
        EditChoice::Paste(contents) => Some(contents@),
        EditChoice::Copy | EditChoice::SelectAll => None,
    }
}

pub open spec fn edited(text: Seq<char>, start: int, end: int, choice: EditChoice) -> Seq<char> {
    match replacement(choice) {
        Some(new) => text.take(start) + new + text.skip(end),
        None => text,
    }
}

pub open spec fn outcome(text: Seq<char>, start: int, end: int, choice: EditChoice) -> OutcomeView {
    OutcomeView {
        copied: if choice is Cut || choice is Copy {
            Some(text.subrange(start, end))
        } else {
            None
        },
        selection: match replacement(choice) {
            Some(new) => Some(((start + new.len()) as usize, (start + new.len()) as usize)),
            None => if choice is SelectAll {
                Some((0, text.len() as usize))
            } else {
                None
            },
        },
    }
}

/// Carries out an entry of the edit menu.
pub fn input_context_menu(text: &mut String, start: usize, end: usize, choice: EditChoice) -> (done:
    EditOutcome)
    requires
        start <= end <= old(text)@.len(),
        match choice {
            EditChoice::Paste(contents) => start + contents@.len() <= usize::MAX,
            _ => true,
        },
    ensures
        final(text)@ == edited(old(text)@, start as int, end as int, choice),
        done@ == outcome(old(text)@, start as int, end as int, choice),
{
    let ghost before = text@;
    proof {
        reveal_strlit("");
        assert(""@ =~= Seq::empty());
    }
    match choice {
        EditChoice::Cut => {
            let copied = selected_text(text.as_str(), start, end);
            let cursor: usize = replace_selection(text, start, end, "");
            EditOutcome { copied: Some(copied), selection: Some((cursor, cursor)) }
        },
        EditChoice::Copy => {
            let copied = selected_text(text.as_str(), start, end);
            EditOutcome { copied: Some(copied), selection: None }
        },
        EditChoice::Paste(contents) => {
            let cursor: usize = replace_selection(text, start, end, contents.as_str());
            EditOutcome { copied: None, selection: Some((cursor, cursor)) }
        },
        EditChoice::Delete => {
            let cursor: usize = replace_selection(text, start, end, "");
            EditOutcome { copied: None, selection: Some((cursor, cursor)) }
        },
        EditChoice::SelectAll => {
            let n: usize = chars_of(text.as_str()).len();
            EditOutcome { copied: None, selection: Some((0, n)) }
        },
    }
}

/// What was cut can be pasted back: the text is then as it was.
pub proof fn pasting_undoes_cutting(text: Seq<char>, start: int, end: int, contents: String)
    requires
        0 <= start <= end <= text.len(),
        contents@ == text.subrange(start, end),
    ensures
        edited(edited(text, start, end, EditChoice::Cut), start, start, EditChoice::Paste(contents))
            == text,
{
    let cut = edited(text, start, end, EditChoice::Cut);
    assert(cut =~= text.take(start) + text.skip(end));
    assert(cut.take(start) =~= text.take(start));
    assert(cut.skip(start) =~= text.skip(end));
    assert(text.take(start) + text.subrange(start, end) + text.skip(end) =~= text);
}

} // verus!
