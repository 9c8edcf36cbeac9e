//! The order in which the files of one directory are handed on: by the
//! bytes of their full paths, so that it does not depend on the order in
//! which the file system listed them.

use vstd::prelude::*;
use crate::common_dir_traversal::FileEntry;
use crate::text::utf8;

verus! {

/// `a` comes no later than `b` in the order of the dictionary, byte by
/// byte; a string comes before every longer one that begins with it.
pub open spec fn lex_le(a: Seq<u8>, b: Seq<u8>) -> bool
    decreases a.len(),
{
    if a.len() == 0 {
        true
    } else if b.len() == 0 {
        false
    } else if a[0] != b[0] {
        a[0] < b[0]
    } else {
        lex_le(a.drop_first(), b.drop_first())
    }
}

/// Of two byte strings one comes no later than the other.
pub proof fn lemma_lex_le_total(a: Seq<u8>, b: Seq<u8>)
    ensures
        lex_le(a, b) || lex_le(b, a),
    decreases a.len(),
{
    if a.len() > 0 && b.len() > 0 && a[0] == b[0] {
        lemma_lex_le_total(a.drop_first(), b.drop_first());
    }
}

/// The order carries over: what is no later than a second string that is
/// no later than a third is no later than the third.
pub proof fn lemma_lex_le_transitive(a: Seq<u8>, b: Seq<u8>, c: Seq<u8>)
    requires
        lex_le(a, b),
        lex_le(b, c),
    ensures
        lex_le(a, c),
    decreases a.len(),
{
    if a.len() > 0 && b.len() > 0 && c.len() > 0 && a[0] == b[0] && b[0] == c[0] {
        lemma_lex_le_transitive(a.drop_first(), b.drop_first(), c.drop_first());
    }
}

/// Two byte strings that are each no later than the other are the same.
pub proof fn lemma_lex_le_antisymmetric(a: Seq<u8>, b: Seq<u8>)
    requires
        lex_le(a, b),
        lex_le(b, a),
    ensures
        a == b,
    decreases a.len(),
{
    if a.len() > 0 && b.len() > 0 {
        lemma_lex_le_antisymmetric(a.drop_first(), b.drop_first());
        assert(a =~= seq![a[0]] + a.drop_first());
        assert(b =~= seq![b[0]] + b.drop_first());
    } else {
        assert(a =~= b);
    }
}

/// Dropping a common first part changes nothing in the order of two
/// strings.
proof fn lemma_lex_le_skip(a: Seq<u8>, b: Seq<u8>, n: int)
    requires
        0 <= n <= a.len(),
        n <= b.len(),
        forall|i: int| 0 <= i < n ==> a[i] == b[i],
    ensures
        lex_le(a, b) == lex_le(a.skip(n), b.skip(n)),
    decreases n,
{
    if n == 0 {
        assert(a.skip(0) =~= a);
        assert(b.skip(0) =~= b);
    } else {
        let a1 = a.drop_first();
        let b1 = b.drop_first();
        assert forall|i: int| 0 <= i < n - 1 implies a1[i] == b1[i] by {
            assert(a1[i] == a[i + 1]);
            assert(b1[i] == b[i + 1]);
        }
        lemma_lex_le_skip(a1, b1, n - 1);
        assert(a1.skip(n - 1) =~= a.skip(n));
        assert(b1.skip(n - 1) =~= b.skip(n));
    }
}

/// Tells whether `a` comes no later than `b`.
pub fn bytes_le(a: &[u8], b: &[u8]) -> (r: bool)
    ensures
        r == lex_le(a@, b@),
{
    let mut i: usize = 0;
    while i < a.len() && i < b.len()
        invariant
            i <= a.len(),
            i <= b.len(),
            forall|j: int| 0 <= j < i ==> a@[j] == b@[j],
        decreases a.len() - i,
    {
        if a[i] != b[i] {
            proof {
                lemma_lex_le_skip(a@, b@, i as int);
            }
            return a[i] < b[i];
        }
        i += 1;
    }
    proof {
        lemma_lex_le_skip(a@, b@, i as int);
    }
    i == a.len()
}

/// The path of `a` comes no later than that of `b`.
pub open spec fn path_le(a: FileEntry, b: FileEntry) -> bool {
    lex_le(utf8(a.path@), utf8(b.path@))
}

/// `entry` put into a list that is in order: behind the last entry whose
/// path comes no later than its own.
pub open spec fn insert_by_path(sorted: Seq<FileEntry>, entry: FileEntry) -> Seq<FileEntry>
    decreases sorted.len(),
{
    if sorted.len() == 0 || path_le(sorted.last(), entry) {
        sorted.push(entry)
    } else {
        insert_by_path(sorted.drop_last(), entry).push(sorted.last())
    }
}

/// The entries in the order of their paths; entries with one and the same
/// path keep the order they came in.
pub open spec fn sort_by_path(entries: Seq<FileEntry>) -> Seq<FileEntry>
    decreases entries.len(),
{
    if entries.len() == 0 {
        Seq::empty()
    } else {
        insert_by_path(sort_by_path(entries.drop_last()), entries.last())
    }
}

/// Each entry's path comes no later than the path of every entry behind
/// it.
pub open spec fn in_path_order(entries: Seq<FileEntry>) -> bool {
    forall|i: int, j: int| 0 <= i < j < entries.len() ==> path_le(entries[i], entries[j])
}

/// Where an insertion goes: `at` is the place behind the last entry whose
/// path comes no later than the new one's.
proof fn lemma_insert_by_path_at(sorted: Seq<FileEntry>, entry: FileEntry, at: int)
    requires
        0 <= at <= sorted.len(),
        at > 0 ==> path_le(sorted[at - 1], entry),
        forall|i: int| at <= i < sorted.len() ==> !path_le(sorted[i], entry),
    ensures
        insert_by_path(sorted, entry) == sorted.insert(at, entry),
    decreases sorted.len(),
{
    if at == sorted.len() {
        assert(sorted.insert(at, entry) =~= sorted.push(entry));
    } else {
        let shorter = sorted.drop_last();
        assert(!path_le(sorted.last(), entry));
        assert(at > 0 ==> shorter[at - 1] == sorted[at - 1]);
        assert forall|i: int| at <= i < shorter.len() implies !path_le(shorter[i], entry) by {
            assert(shorter[i] == sorted[i]);
        }
        lemma_insert_by_path_at(shorter, entry, at);
        assert(shorter.insert(at, entry).push(sorted.last()) =~= sorted.insert(at, entry));
    }
}

/// Putting an entry into a list keeps what the list held and adds the
/// entry; a list that was in order stays in order.
pub proof fn lemma_insert_by_path(sorted: Seq<FileEntry>, entry: FileEntry)
    ensures
        insert_by_path(sorted, entry).to_multiset() == sorted.to_multiset().insert(entry),
        insert_by_path(sorted, entry).len() == sorted.len() + 1,
        in_path_order(sorted) ==> in_path_order(insert_by_path(sorted, entry)),
    decreases sorted.len(),
{
    broadcast use vstd::seq_lib::group_to_multiset_ensures;

    let result = insert_by_path(sorted, entry);
    if sorted.len() == 0 || path_le(sorted.last(), entry) {
        if in_path_order(sorted) {
            assert forall|i: int, j: int| 0 <= i < j < result.len() implies path_le(
                result[i],
                result[j],
            ) by {
                if j == sorted.len() {
                    if i < sorted.len() - 1 {
                        assert(path_le(sorted[i], sorted[sorted.len() - 1]));
                        lemma_lex_le_transitive(
                            utf8(sorted[i].path@),
                            utf8(sorted.last().path@),
                            utf8(entry.path@),
                        );
                    }
                } else {
                    assert(path_le(sorted[i], sorted[j]));
                }
            }
        }
    } else {
        let shorter = sorted.drop_last();
        let inner = insert_by_path(shorter, entry);
        lemma_insert_by_path(shorter, entry);
        assert(shorter.push(sorted.last()) =~= sorted);
        assert(result.to_multiset() =~= sorted.to_multiset().insert(entry));
        if in_path_order(sorted) {
            assert(in_path_order(shorter)) by {
                assert forall|i: int, j: int| 0 <= i < j < shorter.len() implies path_le(
                    shorter[i],
                    shorter[j],
                ) by {
                    assert(path_le(sorted[i], sorted[j]));
                }
            }
            lemma_lex_le_total(utf8(sorted.last().path@), utf8(entry.path@));
            assert forall|i: int, j: int| 0 <= i < j < result.len() implies path_le(
                result[i],
                result[j],
            ) by {
                if j < inner.len() {
                    assert(path_le(inner[i], inner[j]));
                } else {
                    // Every entry of `inner` is the new one or one of `shorter`.
                    assert(inner.to_multiset().count(inner[i]) > 0);
                    if inner[i] == entry {
                    } else {
                        assert(shorter.to_multiset().count(inner[i]) > 0);
                        assert(shorter.contains(inner[i]));
                        let k = choose|k: int| 0 <= k < shorter.len() && shorter[k] == inner[i];
                        assert(path_le(sorted[k], sorted[sorted.len() - 1]));
                    }
                }
            }
        }
    }
}

/// Sorting keeps exactly the entries it was given, and hands them back in
/// the order of their paths.
pub proof fn lemma_sort_by_path(entries: Seq<FileEntry>)
    ensures
        sort_by_path(entries).to_multiset() == entries.to_multiset(),
        sort_by_path(entries).len() == entries.len(),
        in_path_order(sort_by_path(entries)),
    decreases entries.len(),
{
    broadcast use vstd::seq_lib::group_to_multiset_ensures;

    if entries.len() == 0 {
        assert(sort_by_path(entries).to_multiset() =~= entries.to_multiset());
    } else {
        let shorter = entries.drop_last();
        lemma_sort_by_path(shorter);
        lemma_insert_by_path(sort_by_path(shorter), entries.last());
        assert(shorter.push(entries.last()) =~= entries);
    }
}

/// A list in the order of its paths, none of them twice, is the only such
/// list of its entries: however they came in, sorting gives this list.
pub proof fn lemma_sort_by_path_unique(a: Seq<FileEntry>, b: Seq<FileEntry>)
    requires
        a.to_multiset() == b.to_multiset(),
        forall|i: int, j: int| 0 <= i < j < a.len() ==> a[i].path@ != a[j].path@,
    ensures
        sort_by_path(a) == sort_by_path(b),
{
    broadcast use vstd::seq_lib::group_to_multiset_ensures;

    lemma_sort_by_path(a);
    lemma_sort_by_path(b);
    let x = sort_by_path(a);
    let y = sort_by_path(b);
    a.to_multiset_ensures();
    b.to_multiset_ensures();
    // No path stands twice in either list.
    assert forall|e: FileEntry, f: FileEntry|
        a.to_multiset().count(e) > 0 && a.to_multiset().count(f) > 0 && e.path@ == f.path@
            && e != f implies false by {
        assert(a.contains(e) && a.contains(f));
        let i = choose|i: int| 0 <= i < a.len() && a[i] == e;
        let j = choose|j: int| 0 <= j < a.len() && a[j] == f;
        if i < j {
            assert(a[i].path@ != a[j].path@);
        } else if j < i {
            assert(a[j].path@ != a[i].path@);
        }
    }
    lemma_in_order_same_entries(x, y, a.to_multiset());
}

/// Two lists in path order that hold the same entries, where entries with
/// one path are one entry, are the same list.
proof fn lemma_in_order_same_entries(
    x: Seq<FileEntry>,
    y: Seq<FileEntry>,
    held: vstd::multiset::Multiset<FileEntry>,
)
    requires
        x.to_multiset() == held,
        y.to_multiset() == held,
        in_path_order(x),
        in_path_order(y),
        forall|e: FileEntry, f: FileEntry|
            held.count(e) > 0 && held.count(f) > 0 && e.path@ == f.path@ ==> e == f,
    ensures
        x == y,
    decreases x.len(),
{
    broadcast use vstd::seq_lib::group_to_multiset_ensures;

    x.to_multiset_ensures();
    y.to_multiset_ensures();
    if x.len() == 0 {
        assert(x =~= y);
    } else {
        let n = x.len() - 1;
        // The last entries of both lists are the same: each comes no
        // earlier than the other.
        assert(x.contains(x[n]) && y.contains(y[n]));
        assert(held.count(x[n]) > 0 && held.count(y[n]) > 0);
        assert(y.contains(x[n]) && x.contains(y[n]));
        let i = choose|i: int| 0 <= i < y.len() && y[i] == x[n];
        let j = choose|j: int| 0 <= j < x.len() && x[j] == y[n];
        assert(path_le(x[n], y[n])) by {
            if i < n {
                assert(path_le(y[i], y[n]));
            }
            lemma_lex_le_total(utf8(x[n].path@), utf8(x[n].path@));
        }
        assert(path_le(y[n], x[n])) by {
            if j < n {
                assert(path_le(x[j], x[n]));
            }
            lemma_lex_le_total(utf8(y[n].path@), utf8(y[n].path@));
        }
        lemma_lex_le_antisymmetric(utf8(x[n].path@), utf8(y[n].path@));
        crate::text::lemma_utf8_injective(x[n].path@, y[n].path@);
        assert(x[n] == y[n]);
        let x1 = x.drop_last();
        let y1 = y.drop_last();
        assert(x1.push(x[n]) =~= x);
        assert(y1.push(y[n]) =~= y);
        let rest = held.remove(x[n]);
        assert(x1.to_multiset() =~= rest) by {
            assert(x1.to_multiset().insert(x[n]) =~= held);
        }
        assert(y1.to_multiset() =~= rest) by {
            assert(y1.to_multiset().insert(y[n]) =~= held);
        }
        assert(in_path_order(x1)) by {
            assert forall|a: int, b: int| 0 <= a < b < x1.len() implies path_le(x1[a], x1[b]) by {
                assert(path_le(x[a], x[b]));
            }
        }
        assert(in_path_order(y1)) by {
            assert forall|a: int, b: int| 0 <= a < b < y1.len() implies path_le(y1[a], y1[b]) by {
                assert(path_le(y[a], y[b]));
            }
        }
        assert forall|e: FileEntry, f: FileEntry|
            rest.count(e) > 0 && rest.count(f) > 0 && e.path@ == f.path@ implies e == f by {
            assert(held.count(e) > 0 && held.count(f) > 0);
        }
        lemma_in_order_same_entries(x1, y1, rest);
    }
}

/// Puts the entries in the order of their paths.
pub fn sort_entries_by_path(entries: Vec<FileEntry>) -> (sorted: Vec<FileEntry>)
    ensures
        sorted@ == sort_by_path(entries@),
{
    let mut sorted: Vec<FileEntry> = Vec::new();
    for entry in it: entries
        invariant
            it.seq() == entries@,
            sorted@ == sort_by_path(entries@.take(it.index() as int)),
    {
        let mut at: usize = sorted.len();
        while at > 0 && !bytes_le(
            sorted[at - 1].path.as_str().as_bytes(),
            entry.path.as_str().as_bytes(),
        )
            invariant
                at <= sorted@.len(),
                forall|i: int| at <= i < sorted@.len() ==> !path_le(sorted@[i], entry),
            decreases at,
        {
            at -= 1;
        }
        proof {
            lemma_insert_by_path_at(sorted@, entry, at as int);
            assert(entries@.take(it.index() + 1).drop_last() =~= entries@.take(
                it.index() as int,
            ));
        }
        sorted.insert(at, entry);
    }
    assert(entries@.take(entries@.len() as int) =~= entries@);
    sorted
}

} // verus!
