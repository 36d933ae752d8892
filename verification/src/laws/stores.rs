//! Password stores and fonts.
use vstd::prelude::*;
use crate::fonts::{
    family_entries, font_list, font_list_is_sorted, path_of_family, seen_families, tried_fonts,
    EntryView, FaceView,
};
use crate::kwallet::{step, StepView, WalletCall, WalletReply, WalletTask};
use crate::secure_storage::{found, status_of, EntryReply};
use crate::seqs::{first_index, lemma_first_from};

verus! {

/// A password that is loaded is the one that the wallet gives, under the handle
/// that it was opened with; without an entry there is none.
pub proof fn loading_gives_what_the_wallet_holds(handle: i32, password: String)
    requires
        handle >= 0,
    ensures
        step(WalletTask::Load, WalletCall::Open, WalletReply::Number(handle)) == StepView::Call(
            WalletCall::HasEntry(handle),
        ),
        step(WalletTask::Load, WalletCall::HasEntry(handle), WalletReply::Flag(true))
            == StepView::Call(WalletCall::ReadPassword(handle)),
        step(WalletTask::Load, WalletCall::HasEntry(handle), WalletReply::Flag(false))
            == StepView::Done(Ok(None)),
        step(WalletTask::Load, WalletCall::ReadPassword(handle), WalletReply::Text(password))
            == StepView::Done(Ok(Some(password@))),
{
}

/// A password is written once its folder is there, which is made where it is
/// missing.
pub proof fn saving_writes_into_the_folder(handle: i32)
    requires
        handle >= 0,
    ensures
        step(WalletTask::Save, WalletCall::Open, WalletReply::Number(handle)) == StepView::Call(
            WalletCall::HasFolder(handle),
        ),
        step(WalletTask::Save, WalletCall::HasFolder(handle), WalletReply::Flag(true))
            == StepView::Call(WalletCall::WritePassword(handle)),
        step(WalletTask::Save, WalletCall::HasFolder(handle), WalletReply::Flag(false))
            == StepView::Call(WalletCall::CreateFolder(handle)),
        step(WalletTask::Save, WalletCall::CreateFolder(handle), WalletReply::Flag(true))
            == StepView::Call(WalletCall::WritePassword(handle)),
        step(WalletTask::Save, WalletCall::CreateFolder(handle), WalletReply::Flag(false))
            is Done,
        step(WalletTask::Save, WalletCall::CreateFolder(handle), WalletReply::Flag(false))->Done_0
            is Err,
        step(WalletTask::Save, WalletCall::WritePassword(handle), WalletReply::Number(0))
            == StepView::Done(Ok(None)),
{
}

/// A password is deleted where there is one, and never read for that.
pub proof fn deleting_removes_the_entry(handle: i32, result: i32)
    requires
        handle >= 0,
    ensures
        step(WalletTask::Delete, WalletCall::Open, WalletReply::Number(handle)) == StepView::Call(
            WalletCall::HasEntry(handle),
        ),
        step(WalletTask::Delete, WalletCall::HasEntry(handle), WalletReply::Flag(true))
            == StepView::Call(WalletCall::RemoveEntry(handle)),
        step(WalletTask::Delete, WalletCall::HasEntry(handle), WalletReply::Flag(false))
            == StepView::Done(Ok(None)),
        ({
            let end = step(
                WalletTask::Delete,
                WalletCall::RemoveEntry(handle),
                WalletReply::Number(result),
            );
            end is Done && (end->Done_0 is Ok <==> result == 0)
        }),
{
}

/// A wallet that refuses says so, with the number that it gave.
pub proof fn refusals_name_their_number(task: WalletTask, a: i32, b: i32)
    requires
        a < 0,
        b < 0,
        a != b,
    ensures
        ({
            let left = step(task, WalletCall::Open, WalletReply::Number(a));
            let right = step(task, WalletCall::Open, WalletReply::Number(b));
            &&& left is Done && left->Done_0 is Err
            &&& left != right
        }),
{
    crate::laws::texts::different_integers_look_different(a as int, b as int);
    let head = "KWallet open returned "@;
    let x = crate::text::decimal_int(a as int);
    let y = crate::text::decimal_int(b as int);
    assert((head + x).skip(head.len() as int) =~= x);
    assert((head + y).skip(head.len() as int) =~= y);
}

/// What the keyring holds is found; anything else is not.
pub proof fn the_keyring_gives_what_it_holds(password: String, error: String)
    ensures
        found(status_of(EntryReply::Password(password))) == Some(password@),
        found(status_of(EntryReply::NoEntry)) is None,
        found(status_of(EntryReply::Failed(error))) is None,
        found(status_of(EntryReply::Lost)) is None,
{
}

proof fn lemma_entry_kept(faces: Seq<FaceView>, n: int, e: EntryView)
    requires
        0 <= n <= faces.len(),
        family_entries(faces.take(n)).contains(e),
    ensures
        family_entries(faces).contains(e),
    decreases faces.len() - n,
{
    if n == faces.len() {
        assert(faces.take(n) =~= faces);
    } else {
        let part = faces.take(n + 1);
        assert(part.drop_last() =~= faces.take(n));
        let before = family_entries(faces.take(n));
        let k = choose|k: int| 0 <= k < before.len() && before[k] == e;
        assert(family_entries(part)[k] == e);
        lemma_entry_kept(faces, n + 1, e);
    }
}

proof fn lemma_list_of_entries(faces: Seq<FaceView>, e: EntryView)
    ensures
        family_entries(faces).contains(e) <==> font_list(faces).contains(e),
{
    broadcast use vstd::seq_lib::group_to_multiset_ensures;

    font_list_is_sorted(faces);
    let a = family_entries(faces);
    let b = font_list(faces);
    assert(a.contains(e) <==> a.to_multiset().count(e) > 0);
    assert(b.contains(e) <==> b.to_multiset().count(e) > 0);
}

/// A font is listed with the file of the first face of its family.
pub proof fn fonts_are_listed_by_family(faces: Seq<FaceView>, i: int, path: Seq<char>)
    requires
        0 <= i < faces.len(),
        faces[i].families.len() > 0,
        faces[i].path == Some(path),
        forall|j: int|
            0 <= j < i && (#[trigger] faces[j]).families.len() > 0 ==> faces[j].families[0]
                != faces[i].families[0],
    ensures
        exists|k: int|
            0 <= k < font_list(faces).len() && (#[trigger] font_list(faces)[k]).family
                == faces[i].families[0] && font_list(faces)[k].path == path,
{
    let part = faces.take(i + 1);
    let head = faces.take(i);
    assert(part.drop_last() =~= head);
    assert(part.last() == faces[i]);
    if seen_families(head).contains(faces[i].families[0]) {
        let j = choose|j: int|
            0 <= j < head.len() && (#[trigger] head[j]).families.len() > 0 && head[j].families[0]
                == faces[i].families[0];
        assert(head[j] == faces[j]);
    }
    let e = EntryView { family: faces[i].families[0], path };
    let entries = family_entries(part);
    assert(entries.last() == e);
    assert(entries.contains(e)) by {
        assert(entries[entries.len() - 1] == e);
    }
    lemma_entry_kept(faces, i + 1, e);
    lemma_list_of_entries(faces, e);
    let list = font_list(faces);
    let k = choose|k: int| 0 <= k < list.len() && list[k] == e;
    assert(list[k].family == faces[i].families[0] && list[k].path == path);
}

/// The file of a family is that of a face which bears its name.
pub proof fn families_are_found_by_name(
    faces: Seq<FaceView>,
    family: Seq<char>,
    i: int,
    path: Seq<char>,
)
    requires
        0 <= i < faces.len(),
        faces[i].path == Some(path),
        faces[i].families.contains(family),
        forall|j: int| 0 <= j < i ==> !(#[trigger] faces[j]).families.contains(family),
    ensures
        path_of_family(faces, family) == Some(path),
{
    let p = |f: FaceView| crate::fonts::offers(f, family);
    lemma_first_from(faces, p, 0);
    assert(p(faces[i]));
    let k = first_index(faces, p)->0;
    if k < i {
        assert(!faces[k].families.contains(family));
    }
}

/// The font that the user chose is tried first, the one with all characters
/// last, and what comes along between them.
pub proof fn the_chosen_font_comes_first(bundled: Seq<Seq<char>>, i: int)
    requires
        0 <= i < bundled.len(),
    ensures
        tried_fonts(bundled, true, true).len() == bundled.len() + 2,
        tried_fonts(bundled, true, true)[0] == "user_font"@,
        tried_fonts(bundled, true, true)[i + 1] == bundled[i],
        tried_fonts(bundled, true, true).last() == "unicode_fallback"@,
        tried_fonts(bundled, false, false) == bundled,
        tried_fonts(bundled, true, false).drop_first() == bundled,
        tried_fonts(bundled, false, true).drop_last() == bundled,
{
    assert(tried_fonts(bundled, true, false).drop_first() =~= bundled);
    assert(tried_fonts(bundled, false, true).drop_last() =~= bundled);
}

} // verus!
