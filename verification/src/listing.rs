use vstd::prelude::*;
use vstd::multiset::Multiset;
use crate::entry::{EntryView, FileEntry, is_hidden, views, visible};
use crate::order::{entry_le, entry_le_exec, lemma_entry_le_total, lemma_entry_le_trans};

verus! {

/// The entry sequence is in the listing's order.
pub open spec fn entries_sorted(s: Seq<EntryView>) -> bool {
    forall|i: int, j: int| 0 <= i < j < s.len() ==> entry_le(s[i], s[j])
}

/// `e` placed into the sorted `s`, after every element that comes at or
/// before it.
pub open spec fn insert_sorted(e: EntryView, s: Seq<EntryView>) -> Seq<EntryView>
    decreases s.len(),
{
    if s.len() == 0 {
        seq![e]
    } else if entry_le(s[0], e) {
        seq![s[0]] + insert_sorted(e, s.drop_first())
    } else {
        seq![e] + s
    }
}

/// The listing body built from the raw children `s` under `show_hidden`:
/// hidden names filtered out, directory sizes normalized, sorted by
/// `entry_le`.
pub open spec fn listing_of(s: Seq<EntryView>, show_hidden: bool) -> Seq<EntryView>
    decreases s.len(),
{
    if s.len() == 0 {
        Seq::empty()
    } else {
        let rest = listing_of(s.drop_last(), show_hidden);
        if visible(s.last().name, show_hidden) {
            insert_sorted(s.last().normalize(), rest)
        } else {
            rest
        }
    }
}

/// The multiset of normalized visible children of `s` under `show_hidden`.
pub open spec fn visible_multiset(s: Seq<EntryView>, show_hidden: bool) -> Multiset<EntryView>
    decreases s.len(),
{
    if s.len() == 0 {
        Multiset::empty()
    } else {
        let rest = visible_multiset(s.drop_last(), show_hidden);
        if visible(s.last().name, show_hidden) {
            rest.insert(s.last().normalize())
        } else {
            rest
        }
    }
}

/// Inserting into a sorted sequence keeps it sorted, adds exactly the new
/// element, and grows the length by one.
pub proof fn lemma_insert_sorted_props(e: EntryView, s: Seq<EntryView>)
    requires
        entries_sorted(s),
    ensures
        entries_sorted(insert_sorted(e, s)),
        insert_sorted(e, s).to_multiset() =~= s.to_multiset().insert(e),
        insert_sorted(e, s).len() == s.len() + 1,
        forall|k: int|
            0 <= k < insert_sorted(e, s).len() ==> insert_sorted(e, s)[k] == e || s.contains(
                #[trigger] insert_sorted(e, s)[k],
            ),
    decreases s.len(),
{
    broadcast use vstd::seq_lib::group_to_multiset_ensures;
    broadcast use vstd::multiset::group_multiset_axioms;

    let r = insert_sorted(e, s);
    if s.len() == 0 {
        assert(seq![e] =~= Seq::empty().push(e));
        assert(Seq::<EntryView>::empty().to_multiset() =~= Multiset::empty());
        assert(r.to_multiset() =~= s.to_multiset().insert(e));
    } else if entry_le(s[0], e) {
        let df = s.drop_first();
        assert(entries_sorted(df)) by {
            assert forall|i: int, j: int| 0 <= i < j < df.len() implies entry_le(df[i], df[j]) by {
                assert(df[i] == s[i + 1]);
                assert(df[j] == s[j + 1]);
            }
        }
        lemma_insert_sorted_props(e, df);
        let x = insert_sorted(e, df);
        assert(r == seq![s[0]] + x);
        assert forall|k: int| 1 <= k < r.len() implies entry_le(r[0], r[k]) by {
            assert(r[k] == x[k - 1]);
            if x[k - 1] == e {
            } else {
                assert(df.contains(x[k - 1]));
                let m = choose|m: int| 0 <= m < df.len() && df[m] == x[k - 1];
                assert(df[m] == s[m + 1]);
                assert(entry_le(s[0], s[m + 1]));
            }
        }
        assert(entries_sorted(r)) by {
            assert forall|i: int, j: int| 0 <= i < j < r.len() implies entry_le(r[i], r[j]) by {
                if i == 0 {
                } else {
                    assert(r[i] == x[i - 1]);
                    assert(r[j] == x[j - 1]);
                }
            }
        }
        assert(s =~= seq![s[0]] + df);
        vstd::seq_lib::lemma_multiset_commutative(seq![s[0]], x);
        vstd::seq_lib::lemma_multiset_commutative(seq![s[0]], df);
        assert(seq![s[0]] =~= Seq::empty().push(s[0]));
        assert(r.to_multiset() =~= s.to_multiset().insert(e));
        assert forall|k: int| 0 <= k < r.len() implies r[k] == e || s.contains(#[trigger] r[k]) by {
            if k == 0 {
                assert(s[0] == r[0]);
                assert(s.contains(s[0]));
            } else {
                assert(r[k] == x[k - 1]);
                if x[k - 1] != e {
                    assert(df.contains(x[k - 1]));
                    let m = choose|m: int| 0 <= m < df.len() && df[m] == x[k - 1];
                    assert(s[m + 1] == df[m]);
                    assert(s.contains(s[m + 1]));
                }
            }
        }
    } else {
        lemma_entry_le_total(s[0], e);
        assert(entry_le(e, s[0]));
        assert(r == seq![e] + s);
        assert forall|i: int, j: int| 0 <= i < j < r.len() implies entry_le(r[i], r[j]) by {
            if i == 0 {
                assert(r[j] == s[j - 1]);
                if j == 1 {
                } else {
                    assert(entry_le(s[0], s[j - 1]));
                    lemma_entry_le_trans(e, s[0], s[j - 1]);
                }
            } else {
                assert(r[i] == s[i - 1]);
                assert(r[j] == s[j - 1]);
            }
        }
        vstd::seq_lib::lemma_multiset_commutative(seq![e], s);
        assert(seq![e] =~= Seq::empty().push(e));
        assert(r.to_multiset() =~= s.to_multiset().insert(e));
        assert forall|k: int| 0 <= k < r.len() implies r[k] == e || s.contains(#[trigger] r[k]) by {
            if k > 0 {
                assert(r[k] == s[k - 1]);
                assert(s.contains(s[k - 1]));
            }
        }
    }
}

/// The listing body is sorted and holds exactly the normalized visible
/// children, each exactly as often as it occurs among them.
pub proof fn lemma_listing_of_props(s: Seq<EntryView>, show_hidden: bool)
    ensures
        entries_sorted(listing_of(s, show_hidden)),
        listing_of(s, show_hidden).to_multiset() =~= visible_multiset(s, show_hidden),
    decreases s.len(),
{
    broadcast use vstd::seq_lib::group_to_multiset_ensures;
    broadcast use vstd::multiset::group_multiset_axioms;

    if s.len() == 0 {
        assert(Seq::<EntryView>::empty().to_multiset() =~= Multiset::empty());
    } else {
        lemma_listing_of_props(s.drop_last(), show_hidden);
        if visible(s.last().name, show_hidden) {
            lemma_insert_sorted_props(s.last().normalize(), listing_of(s.drop_last(), show_hidden));
        }
    }
}

/// An entry stands in the listing body exactly when it is the normalized
/// form of some visible child.
pub proof fn lemma_listing_of_membership(s: Seq<EntryView>, show_hidden: bool)
    ensures
        forall|x: EntryView|
            listing_of(s, show_hidden).contains(x) <==> exists|i: int|
                0 <= i < s.len() && visible(#[trigger] s[i].name, show_hidden) && x == s[i].normalize(),
    decreases s.len(),
{
    broadcast use vstd::seq_lib::group_to_multiset_ensures;
    broadcast use vstd::multiset::group_multiset_axioms;

    lemma_listing_of_props(s, show_hidden);
    lemma_visible_multiset_membership(s, show_hidden);
    assert forall|x: EntryView|
        listing_of(s, show_hidden).contains(x) <==> visible_multiset(s, show_hidden).contains(
            x,
        ) by {
        assert(listing_of(s, show_hidden).contains(x) <==> listing_of(
            s,
            show_hidden,
        ).to_multiset().contains(x));
    }
}

/// Membership in the visible multiset, spelled out over the children.
pub proof fn lemma_visible_multiset_membership(s: Seq<EntryView>, show_hidden: bool)
    ensures
        forall|x: EntryView|
            visible_multiset(s, show_hidden).contains(x) <==> exists|i: int|
                0 <= i < s.len() && visible(#[trigger] s[i].name, show_hidden) && x == s[i].normalize(),
    decreases s.len(),
{
    broadcast use vstd::multiset::group_multiset_axioms;

    if s.len() == 0 {
    } else {
        let df = s.drop_last();
        lemma_visible_multiset_membership(df, show_hidden);
        let last = s.last();
        assert forall|x: EntryView|
            visible_multiset(s, show_hidden).contains(x) <==> exists|i: int|
                0 <= i < s.len() && visible(#[trigger] s[i].name, show_hidden) && x
                    == s[i].normalize() by {
            if visible_multiset(s, show_hidden).contains(x) {
                if visible(last.name, show_hidden) && x == last.normalize() {
                    assert(s[s.len() - 1] == last);
                } else {
                    assert(visible_multiset(df, show_hidden).contains(x));
                    let i = choose|i: int|
                        0 <= i < df.len() && visible(#[trigger] df[i].name, show_hidden) && x
                            == df[i].normalize();
                    assert(s[i] == df[i]);
                }
            }
            if exists|i: int|
                0 <= i < s.len() && visible(#[trigger] s[i].name, show_hidden) && x
                    == s[i].normalize() {
                let i = choose|i: int|
                    0 <= i < s.len() && visible(#[trigger] s[i].name, show_hidden) && x
                        == s[i].normalize();
                if i == s.len() - 1 {
                    assert(s[i] == last);
                    assert(visible_multiset(s, show_hidden).contains(x));
                } else {
                    assert(df[i] == s[i]);
                    assert(visible_multiset(df, show_hidden).contains(x));
                }
            }
        }
    }
}

/// Children with pairwise distinct names yield a visible multiset in
/// which every entry occurs at most once.
pub proof fn lemma_visible_multiset_once(s: Seq<EntryView>, show_hidden: bool)
    requires
        forall|i: int, j: int| 0 <= i < j < s.len() ==> s[i].name != s[j].name,
    ensures
        forall|x: EntryView| visible_multiset(s, show_hidden).count(x) <= 1,
    decreases s.len(),
{
    broadcast use vstd::multiset::group_multiset_axioms;

    if s.len() == 0 {
    } else {
        let df = s.drop_last();
        assert forall|i: int, j: int| 0 <= i < j < df.len() implies df[i].name != df[j].name by {
            assert(df[i] == s[i]);
            assert(df[j] == s[j]);
        }
        lemma_visible_multiset_once(df, show_hidden);
        let last = s.last();
        if visible(last.name, show_hidden) {
            let e = last.normalize();
            lemma_visible_multiset_membership(df, show_hidden);
            assert(visible_multiset(df, show_hidden).count(e) == 0) by {
                if visible_multiset(df, show_hidden).contains(e) {
                    let i = choose|i: int|
                        0 <= i < df.len() && visible(#[trigger] df[i].name, show_hidden) && e
                            == df[i].normalize();
                    assert(df[i].normalize().name == df[i].name);
                    assert(e.name == last.name);
                    assert(s[i] == df[i]);
                    assert(s[s.len() - 1] == last);
                }
            }
            assert forall|x: EntryView| visible_multiset(s, show_hidden).count(x) <= 1 by {
                assert(visible_multiset(s, show_hidden) == visible_multiset(
                    df,
                    show_hidden,
                ).insert(e));
                if x != e {
                    assert(visible_multiset(s, show_hidden).count(x) == visible_multiset(
                        df,
                        show_hidden,
                    ).count(x));
                }
            }
        } else {
            assert(visible_multiset(s, show_hidden) == visible_multiset(df, show_hidden));
        }
    }
}

/// The listing body never shows an entry twice when the raw children
/// carry pairwise distinct names, as one directory's children do.
pub proof fn lemma_listing_once(s: Seq<EntryView>, show_hidden: bool)
    requires
        forall|i: int, j: int| 0 <= i < j < s.len() ==> s[i].name != s[j].name,
    ensures
        forall|x: EntryView| listing_of(s, show_hidden).to_multiset().count(x) <= 1,
{
    lemma_listing_of_props(s, show_hidden);
    lemma_visible_multiset_once(s, show_hidden);
}

/// Loading the same directory with the same flag twice yields identical
/// entry sequences: the listing is a function of its inputs alone.
pub proof fn lemma_load_deterministic(
    dir: Seq<char>,
    children: Seq<EntryView>,
    show_hidden: bool,
    r1: Seq<EntryView>,
    r2: Seq<EntryView>,
)
    requires
        r1 == full_listing(dir, children, show_hidden),
        r2 == full_listing(dir, children, show_hidden),
    ensures
        r1 == r2,
{
}

/// Read off what the sort order pins down: every directory row stands
/// before every file row, and names ascend in the case-insensitive name
/// order within each group.
pub proof fn lemma_sorted_shape(s: Seq<EntryView>)
    requires
        entries_sorted(s),
    ensures
        forall|i: int, j: int| 0 <= i < j < s.len() && (#[trigger] s[j]).is_dir ==> (
        #[trigger] s[i]).is_dir,
        forall|i: int, j: int|
            0 <= i < j < s.len() && (#[trigger] s[i]).is_dir == (#[trigger] s[j]).is_dir
                ==> crate::order::name_le(s[i].name, s[j].name),
{
    assert forall|i: int, j: int|
        0 <= i < j < s.len() && (#[trigger] s[j]).is_dir implies (#[trigger] s[i]).is_dir by {
        assert(entry_le(s[i], s[j]));
    }
    assert forall|i: int, j: int|
        0 <= i < j < s.len() && (#[trigger] s[i]).is_dir == (#[trigger] s[j]).is_dir implies crate::order::name_le(
        s[i].name,
        s[j].name,
    ) by {
        assert(entry_le(s[i], s[j]));
    }
}

/// Inserting before the first element that does not come at or before `e`
/// is what `insert_sorted` does.
pub proof fn lemma_insert_sorted_at(e: EntryView, s: Seq<EntryView>, j: int)
    requires
        entries_sorted(s),
        0 <= j <= s.len(),
        forall|k: int| 0 <= k < j ==> entry_le(#[trigger] s[k], e),
        j == s.len() || !entry_le(s[j], e),
    ensures
        insert_sorted(e, s) =~= s.insert(j, e),
    decreases s.len(),
{
    if s.len() == 0 {
    } else if j == 0 {
        assert(!entry_le(s[0], e));
    } else {
        assert(entry_le(s[0], e));
        let df = s.drop_first();
        assert(entries_sorted(df)) by {
            assert forall|i: int, k: int| 0 <= i < k < df.len() implies entry_le(df[i], df[k]) by {
                assert(df[i] == s[i + 1]);
                assert(df[k] == s[k + 1]);
            }
        }
        assert forall|k: int| 0 <= k < j - 1 implies entry_le(#[trigger] df[k], e) by {
            assert(df[k] == s[k + 1]);
        }
        assert(j - 1 == df.len() || !entry_le(df[j - 1], e)) by {
            if j - 1 < df.len() {
                assert(df[j - 1] == s[j]);
            }
        }
        lemma_insert_sorted_at(e, df, j - 1);
        assert(insert_sorted(e, s) == seq![s[0]] + insert_sorted(e, df));
    }
}

/// The synthetic parent-reference entry shown at the top of a listing
/// whose directory has a parent.
pub open spec fn dotdot_view(dir: Seq<char>) -> EntryView {
    EntryView {
        name: ".."@,
        path: dir + "/.."@,
        is_dir: true,
        size: 0,
        modified: Seq::empty(),
    }
}

/// The whole listing of `dir` built from the raw children: the sorted,
/// filtered body, preceded by the ".." entry whenever `dir` has a parent.
pub open spec fn full_listing(dir: Seq<char>, children: Seq<EntryView>, show_hidden: bool) -> Seq<
    EntryView,
> {
    if crate::paths::parent_seq(dir) is Some {
        seq![dotdot_view(dir)] + listing_of(children, show_hidden)
    } else {
        listing_of(children, show_hidden)
    }
}

/// Build the listing of `dir` from its raw children: filter hidden names
/// under `show_hidden`, force directory sizes to 0, sort directories
/// before files and case-insensitively by name within each group, and
/// put a ".." entry first when `dir` has a parent.
pub fn build_listing(dir: &str, children: Vec<FileEntry>, show_hidden: bool) -> (r: Vec<FileEntry>)
    ensures
        views(r@) == full_listing(dir@, views(children@), show_hidden),
{
    let ghost orig: Seq<EntryView> = views(children@);
    let mut rest = children;
    let mut out: Vec<FileEntry> = Vec::new();
    proof {
        assert(views(rest@) =~= orig.skip(0));
        assert(orig.take(0) =~= Seq::<EntryView>::empty());
        assert(views(out@) =~= Seq::<EntryView>::empty());
    }
    while rest.len() > 0
        invariant
            rest@.len() <= orig.len(),
            views(rest@) == orig.skip(orig.len() - rest.len()),
            views(out@) == listing_of(orig.take(orig.len() - rest.len()), show_hidden),
        decreases rest.len(),
    {
        let ghost done: int = orig.len() - rest.len();
        let ghost prev_vec: Seq<FileEntry> = rest@;
        let ghost before: Seq<EntryView> = views(rest@);
        let c = rest.remove(0);
        proof {
            assert(c@ == before[0]);
            assert(c@ == orig[done]);
            assert(rest@ =~= prev_vec.drop_first());
            assert(views(rest@) =~= orig.skip(done + 1)) by {
                assert forall|k: int| 0 <= k < rest@.len() implies views(rest@)[k] == orig.skip(
                    done + 1,
                )[k] by {
                    assert(views(rest@)[k] == rest@[k]@);
                    assert(rest@[k] == prev_vec[k + 1]);
                    assert(views(prev_vec)[k + 1] == prev_vec[k + 1]@);
                    assert(before[k + 1] == orig.skip(done)[k + 1]);
                    assert(orig.skip(done)[k + 1] == orig[done + 1 + k]);
                    assert(orig.skip(done + 1)[k] == orig[done + 1 + k]);
                }
            }
            assert(orig.take(done + 1).drop_last() =~= orig.take(done));
            assert(orig.take(done + 1).last() == orig[done]);
            lemma_listing_of_props(orig.take(done), show_hidden);
        }
        if show_hidden || !is_hidden(c.name.as_str()) {
            let e = c.normalize();
            let mut j: usize = 0;
            while j < out.len() && entry_le_exec(&out[j], &e)
                invariant
                    j <= out.len(),
                    forall|k: int| 0 <= k < j ==> entry_le(#[trigger] views(out@)[k], e@),
                decreases out.len() - j,
            {
                proof {
                    assert(views(out@)[j as int] == out@[j as int]@);
                }
                j = j + 1;
            }
            proof {
                assert(j < out.len() ==> !entry_le(views(out@)[j as int], e@));
                lemma_insert_sorted_at(e@, views(out@), j as int);
            }
            let ghost prev = views(out@);
            out.insert(j, e);
            proof {
                assert(views(out@) =~= prev.insert(j as int, e@));
            }
        }
    }
    proof {
        assert(orig.take(orig.len() - 0) =~= orig);
    }
    match crate::paths::parent_of(dir) {
        Some(_) => {
            let dd = FileEntry {
                name: String::from_str(".."),
                path: crate::paths::join_dotdot(dir),
                is_dir: true,
                size: 0,
                modified: String::new(),
            };
            proof {
                assert(dd@ == dotdot_view(dir@));
            }
            let ghost body = views(out@);
            let mut out2 = out;
            out2.insert(0, dd);
            proof {
                assert(views(out2@) =~= seq![dotdot_view(dir@)] + body);
            }
            out2
        },
        None => out,
    }
}

} // verus!
