//! Searching and splicing byte text.

use vstd::prelude::*;

verus! {

/// The byte of a space.
pub const SPACE: u8 = 32;

/// The byte of a horizontal tab.
pub const TAB: u8 = 9;

/// The byte of a line feed.
pub const LINE_FEED: u8 = 10;

/// The byte of a form feed.
pub const FORM_FEED: u8 = 12;

/// The byte of a carriage return.
pub const CARRIAGE_RETURN: u8 = 13;

/// `needle` stands in `hay` at `pos`.
pub open spec fn occurs_at(hay: Seq<u8>, needle: Seq<u8>, pos: int) -> bool {
    &&& 0 <= pos
    &&& pos + needle.len() <= hay.len()
    &&& hay.subrange(pos, pos + needle.len()) == needle
}

/// The least position from `from` on at which `needle` stands in `hay`, or
/// the length of `hay` plus one where there is none.
pub open spec fn occurrence_from(hay: Seq<u8>, needle: Seq<u8>, from: int) -> int
    decreases hay.len() + 1 - from,
{
    if from < 0 || from > hay.len() {
        hay.len() as int + 1
    } else if occurs_at(hay, needle, from) {
        from
    } else {
        occurrence_from(hay, needle, from + 1)
    }
}

/// The position of the first occurrence of `needle` in `hay`.
pub open spec fn first_occurrence(hay: Seq<u8>, needle: Seq<u8>) -> Option<int> {
    let pos = occurrence_from(hay, needle, 0);
    if pos <= hay.len() {
        Some(pos)
    } else {
        None
    }
}

/// `text` with the bytes from `start` up to `end` replaced by `new`.
pub open spec fn spliced(text: Seq<u8>, start: int, end: int, new: Seq<u8>) -> Seq<u8> {
    text.subrange(0, start) + new + text.subrange(end, text.len() as int)
}

/// `hay` with the first occurrence of `needle` replaced by `new`; `hay`
/// itself where `needle` does not occur.
pub open spec fn replaced_first(hay: Seq<u8>, needle: Seq<u8>, new: Seq<u8>) -> Seq<u8> {
    match first_occurrence(hay, needle) {
        Some(pos) => spliced(hay, pos, pos + needle.len(), new),
        None => hay,
    }
}

/// The length and the bytes of a spliced text.
pub proof fn spliced_bytes(text: Seq<u8>, start: int, end: int, new: Seq<u8>)
    requires
        0 <= start <= end <= text.len(),
    ensures
        spliced(text, start, end, new).len() == text.len() - (end - start) + new.len(),
        forall|i: int| 0 <= i < start ==> spliced(text, start, end, new)[i] == text[i],
        forall|i: int|
            start <= i < start + new.len() ==> spliced(text, start, end, new)[i] == new[i - start],
        forall|i: int|
            start + new.len() <= i < spliced(text, start, end, new).len() ==> spliced(
                text,
                start,
                end,
                new,
            )[i] == text[i - new.len() - start + end],
{
}

/// What `occurrence_from` returns is the first occurrence from `from` on.
pub proof fn occurrence_from_is_first(hay: Seq<u8>, needle: Seq<u8>, from: int)
    requires
        0 <= from <= hay.len() + 1,
    ensures
        from <= occurrence_from(hay, needle, from) <= hay.len() + 1,
        occurrence_from(hay, needle, from) <= hay.len() ==> occurs_at(
            hay,
            needle,
            occurrence_from(hay, needle, from),
        ),
        forall|q: int|
            from <= q < occurrence_from(hay, needle, from) ==> !occurs_at(hay, needle, q),
    decreases hay.len() + 1 - from,
{
    if from <= hay.len() && !occurs_at(hay, needle, from) {
        occurrence_from_is_first(hay, needle, from + 1);
    }
}

/// A position with an occurrence and none before it, from `from` on, is
/// what `occurrence_from` returns.
pub proof fn first_is_occurrence_from(hay: Seq<u8>, needle: Seq<u8>, from: int, pos: int)
    requires
        0 <= from <= pos,
        occurs_at(hay, needle, pos),
        forall|q: int| from <= q < pos ==> !occurs_at(hay, needle, q),
    ensures
        occurrence_from(hay, needle, from) == pos,
    decreases pos - from,
{
    if from < pos {
        first_is_occurrence_from(hay, needle, from + 1, pos);
    }
}

/// Whether `needle` stands in `hay` at `pos`.
pub fn matches_at(hay: &[u8], needle: &[u8], pos: usize) -> (found: bool)
    ensures
        found == occurs_at(hay@, needle@, pos as int),
{
    if needle.len() > hay.len() || pos > hay.len() - needle.len() {
        return false;
    }
    let mut i: usize = 0;
    while i < needle.len()
        invariant
            i <= needle.len(),
            pos + needle.len() <= hay.len(),
            forall|k: int| 0 <= k < i ==> hay@[pos + k] == needle@[k],
        decreases needle.len() - i,
    {
        if hay[pos + i] != needle[i] {
            assert(hay@.subrange(pos as int, pos + needle.len())[i as int] != needle@[i as int]);
            return false;
        }
        i += 1;
    }
    assert(hay@.subrange(pos as int, pos + needle.len()) =~= needle@);
    true
}

/// The position of the first occurrence of `needle` in `hay`.
pub fn find(hay: &[u8], needle: &[u8]) -> (found: Option<usize>)
    ensures
        match found {
            Some(pos) => first_occurrence(hay@, needle@) == Some(pos as int),
            None => first_occurrence(hay@, needle@) is None,
        },
{
    if needle.len() > hay.len() {
        proof {
            occurrence_from_is_first(hay@, needle@, 0);
        }
        return None;
    }
    let last: usize = hay.len() - needle.len();
    let mut pos: usize = 0;
    loop
        invariant
            pos <= last,
            last == hay.len() - needle.len(),
            forall|q: int| 0 <= q < pos ==> !occurs_at(hay@, needle@, q),
        decreases last - pos,
    {
        if matches_at(hay, needle, pos) {
            proof {
                first_is_occurrence_from(hay@, needle@, 0, pos as int);
            }
            return Some(pos);
        }
        if pos == last {
            proof {
                occurrence_from_is_first(hay@, needle@, 0);
            }
            return None;
        }
        pos += 1;
    }
}

/// `text` with the bytes from `start` up to `end` replaced by `new`.
pub fn splice(text: &[u8], start: usize, end: usize, new: &[u8]) -> (out: Vec<u8>)
    requires
        start <= end <= text.len(),
    ensures
        out@ == spliced(text@, start as int, end as int, new@),
{
    let mut out: Vec<u8> = Vec::new();
    let mut i: usize = 0;
    while i < start
        invariant
            i <= start <= text.len(),
            out@ == text@.subrange(0, i as int),
        decreases start - i,
    {
        out.push(text[i]);
        i += 1;
    }
    let mut j: usize = 0;
    while j < new.len()
        invariant
            j <= new.len(),
            out@ == text@.subrange(0, start as int) + new@.subrange(0, j as int),
        decreases new.len() - j,
    {
        out.push(new[j]);
        j += 1;
    }
    assert(new@.subrange(0, new.len() as int) == new@);
    let mut k: usize = end;
    while k < text.len()
        invariant
            end <= k <= text.len(),
            out@ == text@.subrange(0, start as int) + new@ + text@.subrange(end as int, k as int),
        decreases text.len() - k,
    {
        out.push(text[k]);
        k += 1;
    }
    out
}

/// The bytes of `text` from `start` up to `end`.
pub fn copy_range(text: &[u8], start: usize, end: usize) -> (out: Vec<u8>)
    requires
        start <= end <= text.len(),
    ensures
        out@ == text@.subrange(start as int, end as int),
{
    let mut out: Vec<u8> = Vec::new();
    let mut i: usize = start;
    while i < end
        invariant
            start <= i <= end <= text.len(),
            out@ == text@.subrange(start as int, i as int),
        decreases end - i,
    {
        out.push(text[i]);
        i += 1;
    }
    out
}

/// `hay` with the first occurrence of `needle` replaced by `new`; a copy of
/// `hay` where `needle` does not occur.
pub fn replace_first(hay: &[u8], needle: &[u8], new: &[u8]) -> (out: Vec<u8>)
    ensures
        out@ == replaced_first(hay@, needle@, new@),
{
    match find(hay, needle) {
        Some(pos) => {
            assert(occurs_at(hay@, needle@, pos as int)) by {
                occurrence_from_is_first(hay@, needle@, 0);
            }
            let total: usize = hay.len();
            assert(pos + needle@.len() <= total);
            splice(hay, pos, pos + needle.len(), new)
        },
        None => {
            let out = splice(hay, 0, 0, &[]);
            assert(out@ =~= hay@);
            out
        },
    }
}

} // verus!
