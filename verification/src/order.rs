use vstd::prelude::*;
use crate::entry::EntryView;
use crate::trusted::{lower_of, lowercase};

verus! {

/// Lexicographic "less than or equal" on character sequences, compared by
/// Unicode scalar value from position `i` on.
pub open spec fn lex_le_from(a: Seq<char>, b: Seq<char>, i: int) -> bool
    decreases a.len() - i,
{
    if i < 0 || i >= a.len() {
        true
    } else if i >= b.len() {
        false
    } else if (a[i] as u32) < (b[i] as u32) {
        true
    } else if (b[i] as u32) < (a[i] as u32) {
        false
    } else {
        lex_le_from(a, b, i + 1)
    }
}

/// Lexicographic "less than or equal" on whole character sequences.
pub open spec fn lex_le(a: Seq<char>, b: Seq<char>) -> bool {
    lex_le_from(a, b, 0)
}

/// One of `lex_le_from(a, b, i)` and `lex_le_from(b, a, i)` always holds.
pub proof fn lemma_lex_from_total(a: Seq<char>, b: Seq<char>, i: int)
    ensures
        lex_le_from(a, b, i) || lex_le_from(b, a, i),
    decreases a.len() - i,
{
    if i < 0 || i >= a.len() || i >= b.len() {
    } else if (a[i] as u32) < (b[i] as u32) || (b[i] as u32) < (a[i] as u32) {
    } else {
        lemma_lex_from_total(a, b, i + 1);
    }
}

proof fn lemma_char_u32_inj(x: char, y: char)
    requires
        x as u32 == y as u32,
    ensures
        x == y,
{
}

/// If each of two sequences is lexicographically at most the other from
/// position `i` on, their tails from `i` agree.
pub proof fn lemma_lex_from_antisym(a: Seq<char>, b: Seq<char>, i: int)
    requires
        0 <= i <= a.len(),
        i <= b.len(),
        lex_le_from(a, b, i),
        lex_le_from(b, a, i),
    ensures
        a.skip(i) =~= b.skip(i),
    decreases a.len() - i,
{
    if i >= a.len() {
        // lex_le_from(b, a, i) forces b to be exhausted at i as well.
        assert(i >= b.len());
    } else {
        assert(i < b.len());
        if (a[i] as u32) < (b[i] as u32) {
            assert(!lex_le_from(b, a, i));
        }
        if (b[i] as u32) < (a[i] as u32) {
            assert(!lex_le_from(a, b, i));
        }
        assert((a[i] as u32) == (b[i] as u32));
        lemma_char_u32_inj(a[i], b[i]);
        lemma_lex_from_antisym(a, b, i + 1);
        assert forall|k: int| 0 <= k < a.skip(i).len() implies a.skip(i)[k] == b.skip(i)[k] by {
            if k == 0 {
                assert(a.skip(i)[0] == a[i]);
                assert(b.skip(i)[0] == b[i]);
            } else {
                assert(a.skip(i)[k] == a.skip(i + 1)[k - 1]);
                assert(b.skip(i)[k] == b.skip(i + 1)[k - 1]);
            }
        }
    }
}

/// `lex_le_from` is transitive at every position.
pub proof fn lemma_lex_from_trans(a: Seq<char>, b: Seq<char>, c: Seq<char>, i: int)
    requires
        lex_le_from(a, b, i),
        lex_le_from(b, c, i),
    ensures
        lex_le_from(a, c, i),
    decreases a.len() - i,
{
    if i < 0 || i >= a.len() {
    } else {
        assert(i < b.len());
        assert(i < c.len());
        if (a[i] as u32) == (b[i] as u32) && (b[i] as u32) == (c[i] as u32) {
            lemma_lex_from_trans(a, b, c, i + 1);
        }
    }
}

/// Two sequences each lexicographically at most the other are equal.
pub proof fn lemma_lex_antisym(a: Seq<char>, b: Seq<char>)
    requires
        lex_le(a, b),
        lex_le(b, a),
    ensures
        a == b,
{
    lemma_lex_from_antisym(a, b, 0);
    assert(a.skip(0) =~= a);
    assert(b.skip(0) =~= b);
}

/// The listing's order on names: case-insensitive lexicographic, with ties
/// between names of equal lowercase form broken by the names themselves.
pub open spec fn name_le(x: Seq<char>, y: Seq<char>) -> bool {
    if lower_of(x) == lower_of(y) {
        lex_le(x, y)
    } else {
        lex_le(lower_of(x), lower_of(y))
    }
}

/// The listing's order on entries: directories before files, names as in
/// `name_le` within each group.
pub open spec fn entry_le(a: EntryView, b: EntryView) -> bool {
    if a.is_dir != b.is_dir {
        a.is_dir
    } else {
        name_le(a.name, b.name)
    }
}

/// The entry order relates every pair of entries one way or the other.
pub proof fn lemma_entry_le_total(a: EntryView, b: EntryView)
    ensures
        entry_le(a, b) || entry_le(b, a),
{
    if a.is_dir == b.is_dir {
        if lower_of(a.name) == lower_of(b.name) {
            lemma_lex_from_total(a.name, b.name, 0);
        } else {
            lemma_lex_from_total(lower_of(a.name), lower_of(b.name), 0);
        }
    }
}

/// The name order is transitive.
pub proof fn lemma_name_le_trans(x: Seq<char>, y: Seq<char>, z: Seq<char>)
    requires
        name_le(x, y),
        name_le(y, z),
    ensures
        name_le(x, z),
{
    let lx = lower_of(x);
    let ly = lower_of(y);
    let lz = lower_of(z);
    if lx == ly && ly == lz {
        lemma_lex_from_trans(x, y, z, 0);
    } else if lx == ly {
        // name_le(y, z) compared the lowered forms, and lx == ly.
    } else if ly == lz {
        // name_le(x, y) compared the lowered forms, and ly == lz.
    } else if lx == lz {
        // Then lex_le(lx, ly) and lex_le(ly, lz) == lex_le(ly, lx): the
        // lowered forms would be equal, against lx != ly.
        lemma_lex_antisym(lx, ly);
    } else {
        lemma_lex_from_trans(lx, ly, lz, 0);
    }
}

/// The entry order is transitive.
pub proof fn lemma_entry_le_trans(a: EntryView, b: EntryView, c: EntryView)
    requires
        entry_le(a, b),
        entry_le(b, c),
    ensures
        entry_le(a, c),
{
    if a.is_dir == b.is_dir && b.is_dir == c.is_dir {
        lemma_name_le_trans(a.name, b.name, c.name);
    }
}

/// Whether `a` comes lexicographically at or before `b`.
pub fn lex_le_exec(a: &str, b: &str) -> (r: bool)
    ensures
        r == lex_le(a@, b@),
{
    let alen = a.unicode_len();
    let blen = b.unicode_len();
    let mut i: usize = 0;
    while i < alen && i < blen
        invariant
            i <= alen,
            i <= blen,
            alen == a@.len(),
            blen == b@.len(),
            lex_le(a@, b@) == lex_le_from(a@, b@, i as int),
        decreases alen - i,
    {
        let ca = a.get_char(i);
        let cb = b.get_char(i);
        if (ca as u32) < (cb as u32) {
            return true;
        }
        if (cb as u32) < (ca as u32) {
            return false;
        }
        i = i + 1;
    }
    i >= alen
}

/// Whether `a` comes at or before `b` in the listing's entry order.
pub fn entry_le_exec(a: &crate::entry::FileEntry, b: &crate::entry::FileEntry) -> (r: bool)
    ensures
        r == entry_le(a@, b@),
{
    if a.is_dir != b.is_dir {
        a.is_dir
    } else {
        let la = lowercase(a.name.as_str());
        let lb = lowercase(b.name.as_str());
        if la == lb {
            lex_le_exec(a.name.as_str(), b.name.as_str())
        } else {
            lex_le_exec(la.as_str(), lb.as_str())
        }
    }
}

} // verus!
