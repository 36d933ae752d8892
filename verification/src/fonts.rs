//! Choosing fonts.
use vstd::prelude::*;
use crate::seqs::{
    is_sorted, is_total_preorder, lemma_sorted_by_permutation, lemma_sorted_by_sorted, sorted_by,
    stable_sort, views,
};
use crate::text::{
    lemma_text_le_total, lemma_text_le_transitive, lowercase, opt_text, str_le, text_in, text_le,
    texts, to_lowercase,
};

verus! {

/// A face of a font: its families, the leading one first, and the file it is
/// in.
#[derive(Debug)]
pub struct FontFace {
    pub families: Vec<String>,
    pub path: Option<String>,
}

pub ghost struct FaceView {
    pub families: Seq<Seq<char>>,
    pub path: Option<Seq<char>>,
}

impl View for FontFace {
    type V = FaceView;

    open spec fn view(&self) -> FaceView {
        FaceView { families: texts(self.families@), path: opt_text(self.path) }
    }
}

/// A font that can be chosen.
#[derive(Debug, PartialEq, Eq)]
pub struct FontEntry {
    pub family: String,
    pub path: String,
}

pub ghost struct EntryView {
    pub family: Seq<char>,
    pub path: Seq<char>,
}

impl View for FontEntry {
    type V = EntryView;

    open spec fn view(&self) -> EntryView {
        EntryView { family: self.family@, path: self.path@ }
    }
}

/// The leading families of the first faces.
pub open spec fn seen_families(faces: Seq<FaceView>) -> Set<Seq<char>> {
    Set::new(
        |f: Seq<char>|
            exists|i: int|
                0 <= i < faces.len() && (#[trigger] faces[i]).families.len() > 0
                    && faces[i].families[0] == f,
    )
}

/// One entry for each family, from the first face that leads with it, where
/// that face is in a file.
pub open spec fn family_entries(faces: Seq<FaceView>) -> Seq<EntryView>
    decreases faces.len(),
{
    if faces.len() == 0 {
        Seq::empty()
    } else {
        let before = family_entries(faces.drop_last());
        let face = faces.last();
        if face.families.len() > 0 && !seen_families(faces.drop_last()).contains(face.families[0])
            && face.path is Some {
            before.push(EntryView { family: face.families[0], path: face.path->0 })
        } else {
            before
        }
    }
}

pub open spec fn family_le(a: EntryView, b: EntryView) -> bool {
    text_le(lowercase(a.family), lowercase(b.family))
}

/// The fonts that can be chosen, by their families and without regard to case.
pub open spec fn font_list(faces: Seq<FaceView>) -> Seq<EntryView> {
    sorted_by(family_entries(faces), |a: EntryView, b: EntryView| family_le(a, b))
}

fn entries_of(faces: &Vec<FontFace>) -> (entries: Vec<FontEntry>)
    ensures
        views(entries@) == family_entries(views(faces@)),
{
    let ghost all = views(faces@);
    let mut seen: Vec<String> = Vec::new();
    let mut entries: Vec<FontEntry> = Vec::new();
    let mut i: usize = 0;
    assert(views(entries@) =~= family_entries(all.take(0)));
    while i < faces.len()
        invariant
            i <= faces@.len(),
            all == views(faces@),
            views(entries@) == family_entries(all.take(i as int)),
            forall|f: Seq<char>| #[trigger]
                texts(seen@).contains(f) <==> seen_families(all.take(i as int)).contains(f),
        decreases faces@.len() - i,
    {
        let face = &faces[i];
        let ghost head = all.take(i as int);
        let ghost more = all.take(i + 1);
        let ghost known = texts(seen@);
        proof {
            assert(all[i as int] == face@);
            assert(more.drop_last() =~= head);
            assert(more.last() == face@);
            assert forall|f: Seq<char>|
                seen_families(more).contains(f) <==> seen_families(head).contains(f)
                    || face@.families.len() > 0 && face@.families[0] == f by {
                if seen_families(head).contains(f) {
                    let k = choose|k: int|
                        0 <= k < head.len() && (#[trigger] head[k]).families.len() > 0
                            && head[k].families[0] == f;
                    assert(more[k] == head[k]);
                }
                if face@.families.len() > 0 && face@.families[0] == f {
                    assert(more[i as int] == face@);
                }
                if seen_families(more).contains(f) {
                    let k = choose|k: int|
                        0 <= k < more.len() && (#[trigger] more[k]).families.len() > 0
                            && more[k].families[0] == f;
                    if k < i {
                        assert(head[k] == more[k]);
                    }
                }
            }
        }
        if face.families.len() > 0 {
            assert(face@.families[0] == face.families@[0]@);
            if !text_in(&seen, face.families[0].as_str()) {
                seen.push(face.families[0].clone());
                proof {
                    let new = texts(seen@);
                    assert(new =~= known.push(face@.families[0]));
                    assert forall|f: Seq<char>| #[trigger]
                        new.contains(f) <==> known.contains(f) || f == face@.families[0] by {
                        if known.contains(f) {
                            let k = choose|k: int| 0 <= k < known.len() && known[k] == f;
                            assert(new[k] == f);
                        }
                        if f == face@.families[0] {
                            assert(new[known.len() as int] == f);
                        }
                    }
                }
                match &face.path {
                    Some(path) => {
                        let ghost before = entries@;
                        let entry = FontEntry {
                            family: face.families[0].clone(),
                            path: path.clone(),
                        };
                        entries.push(entry);
                        assert(views(entries@) =~= views(before).push(entry@));
                    },
                    None => {},
                }
            }
        }
        i = i + 1;
    }
    assert(all.take(i as int) =~= all);
    entries
}

/// The fonts that can be chosen, from the faces that the system has.
pub fn scan_system_fonts(faces: &Vec<FontFace>) -> (fonts: Vec<FontEntry>)
    ensures
        views(fonts@) == font_list(views(faces@)),
{
    let entries = entries_of(faces);
    let at_most = |a: &FontEntry, b: &FontEntry| -> (r: bool)
        ensures
            r == family_le(a@, b@),
        {
            let x = to_lowercase(a.family.as_str());
            let y = to_lowercase(b.family.as_str());
            str_le(x.as_str(), y.as_str())
        };
    stable_sort(entries, at_most, Ghost(|a: EntryView, b: EntryView| family_le(a, b)))
}

/// The list of fonts is sorted without regard to case, and lists what
/// `family_entries` gives.
pub proof fn font_list_is_sorted(faces: Seq<FaceView>)
    ensures
        is_sorted(font_list(faces), |a: EntryView, b: EntryView| family_le(a, b)),
        font_list(faces).to_multiset() == family_entries(faces).to_multiset(),
{
    let le = |a: EntryView, b: EntryView| family_le(a, b);
    assert(is_total_preorder(le)) by {
        assert forall|a: EntryView, b: EntryView| #[trigger] le(a, b) || le(b, a) by {
            lemma_text_le_total(lowercase(a.family), lowercase(b.family));
        }
        assert forall|a: EntryView, b: EntryView, c: EntryView| #[trigger]
            le(a, b) && #[trigger] le(b, c) implies le(a, c) by {
            lemma_text_le_transitive(
                lowercase(a.family),
                lowercase(b.family),
                lowercase(c.family),
            );
        }
    }
    lemma_sorted_by_sorted(family_entries(faces), le);
    lemma_sorted_by_permutation(family_entries(faces), le);
}

/// The family of a font file, from its faces, where it could be read.
pub fn family_from_file(faces: Option<&Vec<FontFace>>) -> (family: Option<String>)
    ensures
        opt_text(family) == (match faces {
            Some(list) if list@.len() > 0 && list@[0]@.families.len() > 0 => Some(
                list@[0]@.families[0],
            ),
            _ => None,
        }),
{
    match faces {
        Some(list) => if list.len() > 0 && list[0].families.len() > 0 {
            assert(list@[0]@.families[0] == list@[0].families@[0]@);
            Some(list[0].families[0].clone())
        } else {
            None
        },
        None => None,
    }
}

/// Where the fonts that cover many scripts usually are.
pub fn common_fallback_paths() -> (paths: (&'static str, &'static str))
    ensures
        paths.0@ == "/usr/share/fonts/truetype/noto/NotoSans-Regular.ttf"@,
        paths.1@ == "/usr/share/fonts/truetype/dejavu/DejaVuSans.ttf"@,
{
    (
        "/usr/share/fonts/truetype/noto/NotoSans-Regular.ttf",
        "/usr/share/fonts/truetype/dejavu/DejaVuSans.ttf",
    )
}

/// Whether a face is of a family and in a file.
pub open spec fn offers(face: FaceView, family: Seq<char>) -> bool {
    face.path is Some && face.families.contains(family)
}

pub open spec fn path_of_family(faces: Seq<FaceView>, family: Seq<char>) -> Option<Seq<char>> {
    match crate::seqs::first_index(faces, |f: FaceView| offers(f, family)) {
        Some(i) => faces[i].path,
        None => None,
    }
}

fn path_of_family_in(faces: &Vec<FontFace>, family: &str) -> (path: Option<String>)
    ensures
        opt_text(path) == path_of_family(views(faces@), family@),
{
    let ghost all = views(faces@);
    let ghost p = |f: FaceView| offers(f, family@);
    let mut i: usize = 0;
    while i < faces.len()
        invariant
            i <= faces@.len(),
            all == views(faces@),
            p == (|f: FaceView| offers(f, family@)),
            crate::seqs::first_index(all, p) == crate::seqs::first_from(all, p, i as int),
        decreases faces@.len() - i,
    {
        assert(all[i as int] == faces@[i as int]@);
        match &faces[i].path {
            Some(path) => {
                if text_in(&faces[i].families, family) {
                    return Some(path.clone());
                }
            },
            None => {},
        }
        i = i + 1;
    }
    None
}

/// The file of a font that covers many scripts: one of the usual places, where
/// `first_exists` and `second_exists` tell that it is there, or else one of the
/// faces that the system has.
pub fn unicode_fallback_path(first_exists: bool, second_exists: bool, faces: &Vec<FontFace>) -> (path:
    Option<String>)
    ensures
        opt_text(path) == (if first_exists {
            Some("/usr/share/fonts/truetype/noto/NotoSans-Regular.ttf"@)
        } else if second_exists {
            Some("/usr/share/fonts/truetype/dejavu/DejaVuSans.ttf"@)
        } else {
            match path_of_family(views(faces@), "Noto Sans"@) {
                Some(path) => Some(path),
                None => path_of_family(views(faces@), "DejaVu Sans"@),
            }
        }),
{
    if first_exists {
        return Some(common_fallback_paths().0.to_owned());
    }
    if second_exists {
        return Some(common_fallback_paths().1.to_owned());
    }
    match path_of_family_in(faces, "Noto Sans") {
        Some(path) => Some(path),
        None => path_of_family_in(faces, "DejaVu Sans"),
    }
}

/// The fonts of a family in the order in which they are tried.
pub open spec fn tried_fonts(
    bundled: Seq<Seq<char>>,
    has_user_font: bool,
    has_fallback: bool,
) -> Seq<Seq<char>> {
    let chosen = if has_user_font {
        seq!["user_font"@] + bundled
    } else {
        bundled
    };
    if has_fallback {
        chosen.push("unicode_fallback"@)
    } else {
        chosen
    }
}

/// The fonts of a family in the order in which they are tried: the chosen one,
/// the bundled ones, and one that covers many scripts.
pub fn font_order(bundled: &Vec<String>, has_user_font: bool, has_fallback: bool) -> (names: Vec<
    String,
>)
    ensures
        texts(names@) == tried_fonts(texts(bundled@), has_user_font, has_fallback),
{
    let mut names = crate::text::clone_texts(bundled);
    if has_user_font {
        let ghost before = names@;
        names.insert(0, "user_font".to_owned());
        assert(texts(names@) =~= seq!["user_font"@] + texts(before));
    }
    if has_fallback {
        let ghost before = names@;
        names.push("unicode_fallback".to_owned());
        assert(texts(names@) =~= texts(before).push("unicode_fallback"@));
    }
    names
}

/// The fonts of profile names in the order in which they are tried: first the
/// one that covers many scripts.
pub fn profile_font_order(proportional: &Vec<String>, has_user_font: bool, has_fallback: bool) -> (names:
    Vec<String>)
    ensures
        texts(names@) == (if has_fallback {
            seq!["unicode_fallback"@] + tried_fonts(texts(proportional@), has_user_font, false)
        } else {
            tried_fonts(texts(proportional@), has_user_font, false)
        }),
{
    let mut names = font_order(proportional, has_user_font, false);
    if has_fallback {
        let ghost before = names@;
        names.insert(0, "unicode_fallback".to_owned());
        assert(texts(names@) =~= seq!["unicode_fallback"@] + texts(before));
    }
    names
}

} // verus!
