//! Views of text-bearing values, and copies that keep them.

use vstd::prelude::*;

verus! {

/// The characters of an optional text.
pub open spec fn opt_text_view(text: Option<String>) -> Option<Seq<char>> {
    match text {
        Some(t) => Some(t@),
        None => None,
    }
}

/// The characters of each text of a list.
pub open spec fn texts_view(texts: Seq<String>) -> Seq<Seq<char>> {
    texts.map_values(|t: String| t@)
}

/// A copy of an optional text.
pub fn clone_opt_text(text: &Option<String>) -> (copy: Option<String>)
    ensures
        copy == *text,
        opt_text_view(copy) == opt_text_view(*text),
{
    match text {
        Some(t) => Some(t.clone()),
        None => None,
    }
}

/// Whether `id` is among `ids`.
pub fn contains_id(ids: &Vec<u32>, id: u32) -> (found: bool)
    ensures
        found == ids@.contains(id),
{
    let mut i: usize = 0;
    while i < ids.len()
        invariant
            i <= ids.len(),
            forall|j: int| 0 <= j < i ==> ids[j] != id,
        decreases ids.len() - i,
    {
        if ids[i] == id {
            assert(ids@[i as int] == id);
            return true;
        }
        i += 1;
    }
    false
}

/// Whether `text` is among `texts`.
pub fn contains_text(texts: &Vec<String>, text: &String) -> (found: bool)
    ensures
        found == texts_view(texts@).contains(text@),
{
    let mut i: usize = 0;
    while i < texts.len()
        invariant
            i <= texts.len(),
            forall|j: int| 0 <= j < i ==> texts[j]@ != text@,
        decreases texts.len() - i,
    {
        if texts[i] == *text {
            assert(texts_view(texts@)[i as int] == text@);
            return true;
        }
        i += 1;
    }
    assert forall|j: int| 0 <= j < texts_view(texts@).len() implies texts_view(texts@)[j] != text@ by {
        assert(texts_view(texts@)[j] == texts[j]@);
    }
    false
}

/// A copy of a list of ids.
pub fn clone_ids(ids: &Vec<u32>) -> (copy: Vec<u32>)
    ensures
        copy@ == ids@,
{
    let mut copy: Vec<u32> = Vec::new();
    let mut i: usize = 0;
    while i < ids.len()
        invariant
            i <= ids.len(),
            copy@ == ids@.take(i as int),
        decreases ids.len() - i,
    {
        copy.push(ids[i]);
        assert(copy@ =~= ids@.take(i + 1));
        i += 1;
    }
    assert(ids@.take(ids.len() as int) =~= ids@);
    copy
}

/// A copy of a list of texts.
pub fn clone_texts(texts: &Vec<String>) -> (copy: Vec<String>)
    ensures
        copy@ == texts@,
        texts_view(copy@) == texts_view(texts@),
{
    let mut copy: Vec<String> = Vec::new();
    let mut i: usize = 0;
    while i < texts.len()
        invariant
            i <= texts.len(),
            copy@ == texts@.take(i as int),
        decreases texts.len() - i,
    {
        copy.push(texts[i].clone());
        assert(copy@ =~= texts@.take(i + 1));
        i += 1;
    }
    assert(texts@.take(texts.len() as int) =~= texts@);
    copy
}

} // verus!
