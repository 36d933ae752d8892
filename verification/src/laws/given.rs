//! What a JSON object says, and where a buffer stands.
use vstd::prelude::*;
use crate::json::{
    lemma_member, member, member_bool_or, member_id, member_text, member_text_or, member_whole_or, Json,
    JsonMember,
};
use crate::models::BufferView;
use crate::seqs::{first_index, lemma_first_from, lemma_last_is};
use crate::state::{buffer_of, buffer_place};

verus! {

/// Whether the first member with a key stands at a place.
pub open spec fn first_at(obj: Seq<JsonMember>, key: Seq<char>, i: int) -> bool {
    &&& 0 <= i < obj.len()
    &&& obj[i].key@ == key
    &&& forall|j: int| 0 <= j < i ==> (#[trigger] obj[j]).key@ != key
}

/// Whether an object says a text under a key.
pub open spec fn says(obj: Seq<JsonMember>, key: Seq<char>, text: Seq<char>) -> bool {
    exists|i: int| #[trigger]
        first_at(obj, key, i) && obj[i].value is Text && (obj[i].value->Text_0)@ == text
}

/// Whether an object has a truth value under a key.
pub open spec fn affirms(obj: Seq<JsonMember>, key: Seq<char>, value: bool) -> bool {
    exists|i: int| #[trigger] first_at(obj, key, i) && obj[i].value == Json::Bool(value)
}

/// Whether an object has a whole number under a key.
pub open spec fn counts(obj: Seq<JsonMember>, key: Seq<char>, n: int) -> bool {
    exists|i: int| #[trigger]
        first_at(obj, key, i) && obj[i].value is Number && (obj[i].value->Number_0).signed is Some
            && (obj[i].value->Number_0).signed->0 == n
}

/// Whether an object has a value under a key.
pub open spec fn bears(obj: Seq<JsonMember>, key: Seq<char>, value: Json) -> bool {
    exists|i: int| #[trigger] first_at(obj, key, i) && obj[i].value == value
}

/// Whether an object has no member with a key.
pub open spec fn lacks(obj: Seq<JsonMember>, key: Seq<char>) -> bool {
    forall|i: int| 0 <= i < obj.len() ==> (#[trigger] obj[i]).key@ != key
}

/// Looking a key up finds the first member that has it.
pub proof fn lookup_finds_the_first(obj: Seq<JsonMember>, key: Seq<char>, i: int)
    requires
        first_at(obj, key, i),
    ensures
        member(obj, key) == Some(obj[i].value),
{
    lemma_member(obj, key);
    if member(obj, key) is None {
        assert(obj[i].key@ != key);
    } else {
        let k = choose|k: int|
            0 <= k < obj.len() && obj[k].value == member(obj, key)->0 && (#[trigger] obj[k]).key@
                == key && forall|j: int| 0 <= j < k ==> (#[trigger] obj[j]).key@ != key;
        if i < k {
            assert(obj[i].key@ != key);
        }
        if k < i {
            assert(obj[k].key@ != key);
        }
    }
}

/// What an object says is what is read from it.
pub proof fn reading_gives_what_is_said(
    obj: Seq<JsonMember>,
    key: Seq<char>,
    text: Seq<char>,
    other: Seq<char>,
)
    requires
        says(obj, key, text),
    ensures
        member(obj, key) is Some,
        member_text(obj, key) == Some(text),
        member_text_or(obj, key, other) == text,
        member_id(obj, key) == Some(text),
{
    let i = choose|i: int| #[trigger]
        first_at(obj, key, i) && obj[i].value is Text && (obj[i].value->Text_0)@ == text;
    lookup_finds_the_first(obj, key, i);
}

pub proof fn reading_gives_what_is_affirmed(
    obj: Seq<JsonMember>,
    key: Seq<char>,
    value: bool,
    other: bool,
)
    requires
        affirms(obj, key, value),
    ensures
        member_bool_or(obj, key, other) == value,
{
    let i = choose|i: int| #[trigger]
        first_at(obj, key, i) && obj[i].value == Json::Bool(value);
    lookup_finds_the_first(obj, key, i);
}

pub proof fn reading_gives_what_is_counted(
    obj: Seq<JsonMember>,
    key: Seq<char>,
    n: int,
    other: i64,
)
    requires
        counts(obj, key, n),
    ensures
        member_whole_or(obj, key, other) == n,
        member_id(obj, key) == Some(crate::text::decimal_int(n)),
{
    let i = choose|i: int| #[trigger]
        first_at(obj, key, i) && obj[i].value is Number && (obj[i].value->Number_0).signed is Some
            && (obj[i].value->Number_0).signed->0 == n;
    lookup_finds_the_first(obj, key, i);
}

pub proof fn reading_gives_what_is_borne(obj: Seq<JsonMember>, key: Seq<char>, value: Json)
    requires
        bears(obj, key, value),
    ensures
        member(obj, key) == Some(value),
{
    let i = choose|i: int| #[trigger] first_at(obj, key, i) && obj[i].value == value;
    lookup_finds_the_first(obj, key, i);
}

/// Nothing is read under a key that an object lacks.
pub proof fn nothing_is_read_where_nothing_is_said(obj: Seq<JsonMember>, key: Seq<char>)
    requires
        lacks(obj, key),
    ensures
        member(obj, key) is None,
        member_text(obj, key) is None,
        member_id(obj, key) is None,
        forall|other: Seq<char>| #[trigger] member_text_or(obj, key, other) == other,
        forall|other: bool| #[trigger] member_bool_or(obj, key, other) == other,
        forall|other: i64| #[trigger] member_whole_or(obj, key, other) == other,
{
    lemma_member(obj, key);
}

/// Whether a buffer is the only one with its id.
pub open spec fn stands_at(buffers: Seq<BufferView>, id: Seq<char>, k: int) -> bool {
    &&& 0 <= k < buffers.len()
    &&& buffers[k].id == id
    &&& forall|j: int| 0 <= j < buffers.len() && j != k ==> (#[trigger] buffers[j]).id != id
}

/// A buffer is found by its id.
pub proof fn buffers_are_found_by_id(buffers: Seq<BufferView>, id: Seq<char>, k: int)
    requires
        stands_at(buffers, id, k),
    ensures
        buffer_place(buffers, id) == Some(k),
        buffer_of(buffers, id) == Some(buffers[k]),
        first_index(buffers, |b: BufferView| b.id == id) == Some(k),
{
    let p = |b: BufferView| b.id == id;
    assert(p(buffers[k]));
    assert forall|j: int| k < j < buffers.len() implies !p(#[trigger] buffers[j]) by {}
    lemma_last_is(buffers, p, k);
    lemma_first_from(buffers, p, 0);
    let f = first_index(buffers, p)->0;
    if f != k {
        assert(buffers[f].id != id);
    }
}

} // verus!
