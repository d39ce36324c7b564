//! The catalog index: from a listing of the files under the wallpaper root to
//! a snapshot that groups the images by category, both levels sorted and
//! nothing held twice.

use vstd::prelude::*;
use vstd::relations::{sorted_by, total_ordering};
use vstd::seq_lib::{lemma_sorted_unique, to_multiset_contains};
use crate::paths::{category_name, category_of, is_image, is_image_path};
use crate::text::{lemma_lex_antisymmetric, lemma_lex_reflexive, lemma_lex_total, lemma_lex_transitive, lex_le, lex_lt, str_le, views};

verus! {

/// Why no snapshot could be taken.
#[derive(Debug, Clone, Copy, PartialEq, Eq, Structural)]
pub enum IndexError {
    /// The wallpaper root does not exist: there is no catalog yet.
    RootMissing,
}

/// One category: a top-level directory of the root and the images under it,
/// each by its path relative to the root.
#[derive(Debug, Clone, PartialEq, Eq)]
pub struct Category {
    pub name: String,
    pub entries: Vec<String>,
}

/// The mathematical content of a [`Category`].
pub struct CategoryView {
    pub name: Seq<char>,
    pub entries: Seq<Seq<char>>,
}

impl View for Category {
    type V = CategoryView;

    open spec fn view(&self) -> CategoryView {
        CategoryView { name: self.name@, entries: views(self.entries@) }
    }
}

/// The views of a sequence of categories, element by element.
pub open spec fn model(cats: Seq<Category>) -> Seq<CategoryView> {
    Seq::new(cats.len(), |i: int| cats[i]@)
}

/// Every element is strictly before each later one: the sequence is sorted
/// and holds nothing twice.
pub open spec fn sorted(s: Seq<Seq<char>>) -> bool {
    forall|i: int, j: int| 0 <= i < j < s.len() ==> lex_lt(s[i], s[j])
}

/// A category of a snapshot holds at least one entry, its entries are sorted,
/// and each is an image whose first path component is the category's name.
pub open spec fn category_ok(c: CategoryView) -> bool {
    &&& c.entries.len() > 0
    &&& sorted(c.entries)
    &&& forall|k: int|
        0 <= k < c.entries.len() ==> is_image(#[trigger] c.entries[k]) && category_of(
            c.entries[k],
        ) == Some(c.name)
}

/// The categories come in strictly increasing order of name, and each one is
/// as [`category_ok`] says.
pub open spec fn well_formed(v: Seq<CategoryView>) -> bool {
    &&& forall|i: int, j: int|
        0 <= i < j < v.len() ==> lex_lt(#[trigger] v[i].name, #[trigger] v[j].name)
    &&& forall|i: int| 0 <= i < v.len() ==> category_ok(#[trigger] v[i])
}

/// All entries of a snapshot, category after category.
pub open spec fn flatten(v: Seq<CategoryView>) -> Seq<Seq<char>>
    decreases v.len(),
{
    if v.len() == 0 {
        Seq::empty()
    } else {
        flatten(v.drop_last()) + v.last().entries
    }
}

/// Whether a file of the listing belongs in the snapshot: it is an image and
/// lies inside a category.
pub open spec fn indexed(p: Seq<char>) -> bool {
    is_image(p) && category_of(p) is Some
}

/// The files of a listing that belong in the snapshot. A path that the
/// listing repeats is one file.
pub open spec fn catalogued(files: Seq<Seq<char>>) -> Set<Seq<char>> {
    Set::new(|p: Seq<char>| files.contains(p) && indexed(p))
}

/// Whether a listing holds a file that belongs in the snapshot.
pub open spec fn has_images(files: Seq<Seq<char>>) -> bool {
    exists|i: int| 0 <= i < files.len() && indexed(#[trigger] files[i])
}

/// A point-in-time enumeration of the catalog.
#[derive(Debug, PartialEq, Eq)]
pub struct CatalogSnapshot {
    categories: Vec<Category>,
}

impl View for CatalogSnapshot {
    type V = Seq<CategoryView>;

    closed spec fn view(&self) -> Seq<CategoryView> {
        model(self.categories@)
    }
}

/// Whether some category of `v` holds `entry`.
spec fn held(v: Seq<CategoryView>, entry: Seq<char>) -> bool {
    exists|i: int| 0 <= i < v.len() && (#[trigger] v[i]).entries.contains(entry)
}

/// The names of the categories of `v`, in order.
spec fn names(v: Seq<CategoryView>) -> Seq<Seq<char>> {
    Seq::new(v.len(), |i: int| v[i].name)
}

proof fn lemma_concat_contains(a: Seq<Seq<char>>, b: Seq<Seq<char>>, p: Seq<char>)
    ensures
        (a + b).contains(p) <==> a.contains(p) || b.contains(p),
{
    if a.contains(p) {
        let i = choose|i: int| 0 <= i < a.len() && a[i] == p;
        assert((a + b)[i] == p);
    }
    if b.contains(p) {
        let i = choose|i: int| 0 <= i < b.len() && b[i] == p;
        assert((a + b)[a.len() + i] == p);
    }
    if (a + b).contains(p) {
        let i = choose|i: int| 0 <= i < (a + b).len() && (a + b)[i] == p;
        if i < a.len() {
            assert(a[i] == p);
        } else {
            assert(b[i - a.len()] == p);
        }
    }
}

proof fn lemma_insert_contains(s: Seq<Seq<char>>, pos: int, e: Seq<char>, p: Seq<char>)
    requires
        0 <= pos <= s.len(),
    ensures
        s.insert(pos, e).contains(p) <==> s.contains(p) || p == e,
{
    let t = s.insert(pos, e);
    assert(t[pos] == e);
    if s.contains(p) {
        let i = choose|i: int| 0 <= i < s.len() && s[i] == p;
        if i < pos {
            assert(t[i] == p);
        } else {
            assert(t[i + 1] == p);
        }
    }
    if t.contains(p) {
        let i = choose|i: int| 0 <= i < t.len() && t[i] == p;
        if i < pos {
            assert(s[i] == p);
        } else if i > pos {
            assert(s[i - 1] == p);
        }
    }
}

/// An entry stands in the flattened snapshot exactly when a category holds
/// it.
proof fn lemma_flatten_contains(v: Seq<CategoryView>, entry: Seq<char>)
    ensures
        flatten(v).contains(entry) <==> held(v, entry),
    decreases v.len(),
{
    if v.len() > 0 {
        let rest = v.drop_last();
        lemma_flatten_contains(rest, entry);
        lemma_concat_contains(flatten(rest), v.last().entries, entry);
        if held(rest, entry) {
            let i = choose|i: int| 0 <= i < rest.len() && (#[trigger] rest[i]).entries.contains(entry);
            assert(v[i].entries.contains(entry));
        }
        if v.last().entries.contains(entry) {
            assert(v[v.len() - 1].entries.contains(entry));
        }
        if held(v, entry) {
            let i = choose|i: int| 0 <= i < v.len() && (#[trigger] v[i]).entries.contains(entry);
            if i < rest.len() {
                assert(rest[i].entries.contains(entry));
            }
        }
    }
}

proof fn lemma_catalogued_push(files: Seq<Seq<char>>, x: Seq<char>)
    ensures
        catalogued(files.push(x)) == if indexed(x) {
            catalogued(files).insert(x)
        } else {
            catalogued(files)
        },
{
    let more = files.push(x);
    assert forall|p: Seq<char>| more.contains(p) <==> files.contains(p) || p == x by {
        assert(more[files.len() as int] == x);
        if files.contains(p) {
            let i = choose|i: int| 0 <= i < files.len() && files[i] == p;
            assert(more[i] == p);
        }
        if more.contains(p) {
            let i = choose|i: int| 0 <= i < more.len() && more[i] == p;
            if i < files.len() {
                assert(files[i] == p);
            }
        }
    }
    if indexed(x) {
        assert(catalogued(more) =~= catalogued(files).insert(x));
    } else {
        assert(catalogued(more) =~= catalogued(files));
    }
}

/// A key that is not in a strictly sorted sequence can be put at the place
/// before which all are smaller and from which on all are larger.
proof fn lemma_strict_insert(s: Seq<Seq<char>>, pos: int, e: Seq<char>)
    requires
        sorted(s),
        0 <= pos <= s.len(),
        forall|j: int| 0 <= j < pos ==> !lex_le(e, #[trigger] s[j]),
        pos < s.len() ==> lex_le(e, s[pos]) && !lex_le(s[pos], e),
    ensures
        sorted(s.insert(pos, e)),
{
    let t = s.insert(pos, e);
    lemma_lex_reflexive(e);
    assert forall|j: int| 0 <= j < pos implies lex_lt(#[trigger] s[j], e) by {
        lemma_lex_total(e, s[j]);
    }
    assert forall|j: int| pos <= j < s.len() implies lex_lt(e, #[trigger] s[j]) by {
        if j > pos {
            assert(lex_lt(s[pos], s[j]));
            lemma_lex_transitive(e, s[pos], s[j]);
            if e == s[j] {
                lemma_lex_antisymmetric(s[pos], s[j]);
            }
        }
    }
    assert forall|i: int, j: int| 0 <= i < j < t.len() implies lex_lt(t[i], t[j]) by {
        if j < pos {
            assert(lex_lt(s[i], s[j]));
        } else if j == pos {
            assert(lex_lt(s[i], e));
        } else if i < pos {
            assert(lex_lt(s[i], s[j - 1]));
        } else if i == pos {
            assert(lex_lt(e, s[j - 1]));
        } else {
            assert(lex_lt(s[i - 1], s[j - 1]));
        }
    }
}

proof fn lemma_lex_is_total_order()
    ensures
        total_ordering(|a: Seq<char>, b: Seq<char>| lex_le(a, b)),
{
    let leq = |a: Seq<char>, b: Seq<char>| lex_le(a, b);
    assert forall|x: Seq<char>| #[trigger] leq(x, x) by {
        lemma_lex_reflexive(x);
    }
    assert forall|x: Seq<char>, y: Seq<char>| #[trigger] leq(x, y) && #[trigger] leq(y, x) implies x
        == y by {
        lemma_lex_antisymmetric(x, y);
    }
    assert forall|x: Seq<char>, y: Seq<char>, z: Seq<char>| #[trigger]
        leq(x, y) && #[trigger] leq(y, z) implies leq(x, z) by {
        lemma_lex_transitive(x, y, z);
    }
    assert forall|x: Seq<char>, y: Seq<char>| #[trigger] leq(x, y) || #[trigger] leq(y, x) by {
        lemma_lex_total(x, y);
    }
}

/// Two strictly sorted sequences that hold the same elements are equal.
proof fn lemma_sorted_same(x: Seq<Seq<char>>, y: Seq<Seq<char>>)
    requires
        sorted(x),
        sorted(y),
        forall|p: Seq<char>| x.contains(p) <==> y.contains(p),
    ensures
        x == y,
{
    let leq = |a: Seq<char>, b: Seq<char>| lex_le(a, b);
    lemma_lex_is_total_order();
    assert(sorted_by(x, leq)) by {
        assert forall|i: int, j: int| 0 <= i < j < x.len() implies #[trigger] leq(x[i], x[j]) by {
            assert(lex_lt(x[i], x[j]));
        }
    }
    assert(sorted_by(y, leq)) by {
        assert forall|i: int, j: int| 0 <= i < j < y.len() implies #[trigger] leq(y[i], y[j]) by {
            assert(lex_lt(y[i], y[j]));
        }
    }
    assert(x.no_duplicates()) by {
        assert forall|i: int, j: int| 0 <= i < x.len() && 0 <= j < x.len() && i != j implies x[i]
            != x[j] by {
            if i < j {
                assert(lex_lt(x[i], x[j]));
            } else {
                assert(lex_lt(x[j], x[i]));
            }
        }
    }
    assert(y.no_duplicates()) by {
        assert forall|i: int, j: int| 0 <= i < y.len() && 0 <= j < y.len() && i != j implies y[i]
            != y[j] by {
            if i < j {
                assert(lex_lt(y[i], y[j]));
            } else {
                assert(lex_lt(y[j], y[i]));
            }
        }
    }
    x.lemma_multiset_has_no_duplicates();
    y.lemma_multiset_has_no_duplicates();
    assert forall|p: Seq<char>| x.to_multiset().count(p) == y.to_multiset().count(p) by {
        to_multiset_contains(x, p);
        to_multiset_contains(y, p);
    }
    assert(x.to_multiset() =~= y.to_multiset());
    lemma_sorted_unique(x, y, leq);
}

proof fn lemma_entry_in_its_category(v: Seq<CategoryView>, j: int, entry: Seq<char>)
    requires
        well_formed(v),
        0 <= j < v.len(),
        v[j].entries.contains(entry),
    ensures
        category_of(entry) == Some(v[j].name),
        is_image(entry),
{
    let k = choose|k: int| 0 <= k < v[j].entries.len() && v[j].entries[k] == entry;
    assert(is_image(v[j].entries[k]));
}

/// In a well-formed snapshot an entry stands in the category that is named
/// after its first component, and in no other.
proof fn lemma_held_where(v: Seq<CategoryView>, i: int, entry: Seq<char>)
    requires
        well_formed(v),
        0 <= i < v.len(),
        category_of(entry) == Some(v[i].name),
    ensures
        held(v, entry) <==> v[i].entries.contains(entry),
{
    if held(v, entry) {
        let j = choose|j: int| 0 <= j < v.len() && (#[trigger] v[j]).entries.contains(entry);
        lemma_entry_in_its_category(v, j, entry);
        if j < i {
            assert(lex_lt(v[j].name, v[i].name));
        } else if j > i {
            assert(lex_lt(v[i].name, v[j].name));
        }
    }
}

proof fn lemma_name_is_shared(a: Seq<CategoryView>, b: Seq<CategoryView>, i: int)
    requires
        well_formed(a),
        well_formed(b),
        flatten(a).to_set() == flatten(b).to_set(),
        0 <= i < a.len(),
    ensures
        names(b).contains(a[i].name),
{
    assert(category_ok(a[i]));
    let entry = a[i].entries[0];
    assert(a[i].entries.contains(entry));
    lemma_entry_in_its_category(a, i, entry);
    lemma_flatten_contains(a, entry);
    lemma_flatten_contains(b, entry);
    assert(flatten(a).to_set().contains(entry));
    assert(flatten(b).to_set().contains(entry));
    let j = choose|j: int| 0 <= j < b.len() && (#[trigger] b[j]).entries.contains(entry);
    lemma_entry_in_its_category(b, j, entry);
    assert(names(b)[j] == a[i].name);
}

proof fn lemma_same_names(a: Seq<CategoryView>, b: Seq<CategoryView>)
    requires
        well_formed(a),
        well_formed(b),
        flatten(a).to_set() == flatten(b).to_set(),
    ensures
        names(a) == names(b),
{
    assert(sorted(names(a))) by {
        assert forall|i: int, j: int| 0 <= i < j < names(a).len() implies lex_lt(
            names(a)[i],
            names(a)[j],
        ) by {
            assert(lex_lt(a[i].name, a[j].name));
        }
    }
    assert(sorted(names(b))) by {
        assert forall|i: int, j: int| 0 <= i < j < names(b).len() implies lex_lt(
            names(b)[i],
            names(b)[j],
        ) by {
            assert(lex_lt(b[i].name, b[j].name));
        }
    }
    assert forall|name: Seq<char>| names(a).contains(name) <==> names(b).contains(name) by {
        if names(a).contains(name) {
            let i = choose|i: int| 0 <= i < names(a).len() && names(a)[i] == name;
            lemma_name_is_shared(a, b, i);
        }
        if names(b).contains(name) {
            let j = choose|j: int| 0 <= j < names(b).len() && names(b)[j] == name;
            lemma_name_is_shared(b, a, j);
        }
    }
    lemma_sorted_same(names(a), names(b));
}

/// A listing has one snapshot only: two well-formed snapshots that hold the
/// same entries are the same snapshot.
pub proof fn lemma_snapshot_unique(a: Seq<CategoryView>, b: Seq<CategoryView>)
    requires
        well_formed(a),
        well_formed(b),
        flatten(a).to_set() == flatten(b).to_set(),
    ensures
        a == b,
{
    lemma_same_names(a, b);
    assert(a.len() == names(a).len() && b.len() == names(b).len());
    assert forall|i: int| 0 <= i < a.len() implies a[i] == b[i] by {
        assert(a[i].name == names(a)[i] && b[i].name == names(b)[i]);
        assert(category_ok(a[i]) && category_ok(b[i]));
        assert forall|entry: Seq<char>| a[i].entries.contains(entry) <==> b[i].entries.contains(
            entry,
        ) by {
            if a[i].entries.contains(entry) {
                lemma_entry_in_its_category(a, i, entry);
            }
            if b[i].entries.contains(entry) {
                lemma_entry_in_its_category(b, i, entry);
            }
            if category_of(entry) == Some(a[i].name) {
                lemma_held_where(a, i, entry);
                lemma_held_where(b, i, entry);
                lemma_flatten_contains(a, entry);
                lemma_flatten_contains(b, entry);
                assert(flatten(a).contains(entry) == flatten(a).to_set().contains(entry));
                assert(flatten(b).contains(entry) == flatten(b).to_set().contains(entry));
            }
        }
        lemma_sorted_same(a[i].entries, b[i].entries);
    }
    assert(a =~= b);
}

/// The snapshot holds something exactly when the listing holds a file that
/// belongs in it.
proof fn lemma_empty_iff_no_images(v: Seq<CategoryView>, files: Seq<Seq<char>>)
    requires
        flatten(v).to_set() == catalogued(files),
    ensures
        flatten(v).len() > 0 <==> has_images(files),
{
    if flatten(v).len() > 0 {
        let p = flatten(v)[0];
        assert(flatten(v).contains(p));
        assert(flatten(v).to_set().contains(p));
        assert(catalogued(files).contains(p));
        let i = choose|i: int| 0 <= i < files.len() && files[i] == p;
        assert(indexed(files[i]));
    }
    if has_images(files) {
        let i = choose|i: int| 0 <= i < files.len() && indexed(#[trigger] files[i]);
        assert(files.contains(files[i]));
        assert(catalogued(files).contains(files[i]));
        assert(flatten(v).to_set().contains(files[i]));
    }
}

/// Whether `after` holds what `before` holds and `e`, and nothing else.
spec fn gained(after: Seq<Seq<char>>, before: Seq<Seq<char>>, e: Seq<char>) -> bool {
    forall|p: Seq<char>| after.contains(p) <==> (before.contains(p) || p == e)
}

/// Puts `entry` into the sorted `entries` at its place, unless they hold it
/// already.
fn insert_sorted(entries: &mut Vec<String>, entry: String)
    requires
        sorted(views(old(entries)@)),
    ensures
        sorted(views(final(entries)@)),
        gained(views(final(entries)@), views(old(entries)@), entry@),
{
    let ghost before = views(entries@);
    let ghost e = entry@;
    let mut pos: usize = 0;
    while pos < entries.len() && !str_le(entry.as_str(), entries[pos].as_str())
        invariant
            pos <= entries.len(),
            before == views(entries@),
            before == views(old(entries)@),
            e == entry@,
            forall|j: int| 0 <= j < pos ==> !lex_le(e, #[trigger] before[j]),
        decreases entries.len() - pos,
    {
        assert(before[pos as int] == entries@[pos as int]@);
        pos += 1;
    }
    assert(pos < entries.len() ==> before[pos as int] == entries@[pos as int]@);
    if pos < entries.len() && str_le(entries[pos].as_str(), entry.as_str()) {
        proof {
            lemma_lex_antisymmetric(e, before[pos as int]);
            assert(before.contains(e));
        }
    } else {
        entries.insert(pos, entry);
        proof {
            assert(views(entries@) =~= before.insert(pos as int, e));
            lemma_strict_insert(before, pos as int, e);
            assert forall|p: Seq<char>| views(entries@).contains(p) <==> (before.contains(p) || p
                == e) by {
                lemma_insert_contains(before, pos as int, e, p);
            }
        }
    }
    assert(gained(views(entries@), before, e));
}

/// Files `entry` under the category `name`, opening that category where the
/// snapshot has none of that name yet. An entry that is held already is held
/// once still.
fn add_entry(cats: &mut Vec<Category>, name: String, entry: String)
    requires
        well_formed(model(old(cats)@)),
        is_image(entry@),
        category_of(entry@) == Some(name@),
    ensures
        well_formed(model(final(cats)@)),
        flatten(model(final(cats)@)).to_set() == flatten(model(old(cats)@)).to_set().insert(
            entry@,
        ),
{
    let ghost v = model(cats@);
    let ghost e = entry@;
    let ghost n = name@;
    let mut k: usize = 0;
    while k < cats.len() && !str_le(name.as_str(), cats[k].name.as_str())
        invariant
            k <= cats.len(),
            v == model(cats@),
            n == name@,
            forall|j: int| 0 <= j < k ==> !lex_le(n, #[trigger] names(v)[j]),
        decreases cats.len() - k,
    {
        assert(names(v)[k as int] == cats@[k as int].name@);
        k += 1;
    }
    assert(k < cats.len() ==> names(v)[k as int] == cats@[k as int].name@);
    assert(sorted(names(v))) by {
        assert forall|i: int, j: int| 0 <= i < j < names(v).len() implies lex_lt(
            names(v)[i],
            names(v)[j],
        ) by {
            assert(lex_lt(v[i].name, v[j].name));
        }
    }
    if k < cats.len() && str_le(cats[k].name.as_str(), name.as_str()) {
        proof {
            lemma_lex_antisymmetric(n, v[k as int].name);
        }
        let mut cat = cats.remove(k);
        let ghost w = model(cats@);
        assert(w =~= v.remove(k as int));
        assert(cat@ == v[k as int]);
        assert(category_ok(v[k as int]));
        insert_sorted(&mut cat.entries, entry);
        let ghost c = cat@;
        cats.insert(k, cat);
        let ghost u = model(cats@);
        assert(u =~= v.update(k as int, c));
        proof {
            assert forall|m: int| 0 <= m < c.entries.len() implies is_image(
                #[trigger] c.entries[m],
            ) && category_of(c.entries[m]) == Some(c.name) by {
                let p = c.entries[m];
                assert(c.entries.contains(p));
                if p != e {
                    let o = choose|o: int|
                        0 <= o < v[k as int].entries.len() && v[k as int].entries[o] == p;
                    assert(is_image(v[k as int].entries[o]));
                }
            }
            assert(c.entries.contains(e));
            assert(category_ok(c));
            assert forall|i: int| 0 <= i < u.len() implies category_ok(#[trigger] u[i]) by {
                if i != k {
                    assert(u[i] == v[i]);
                }
            }
            assert forall|i: int, j: int| 0 <= i < j < u.len() implies lex_lt(
                #[trigger] u[i].name,
                #[trigger] u[j].name,
            ) by {
                assert(u[i].name == v[i].name && u[j].name == v[j].name);
            }
            assert forall|p: Seq<char>| flatten(u).contains(p) <==> (flatten(v).contains(p) || p
                == e) by {
                lemma_flatten_contains(u, p);
                lemma_flatten_contains(v, p);
                if held(v, p) {
                    let i = choose|i: int|
                        0 <= i < v.len() && (#[trigger] v[i]).entries.contains(p);
                    if i != k {
                        assert(u[i] == v[i]);
                    }
                    assert(u[i].entries.contains(p));
                }
                if p == e {
                    assert(u[k as int].entries.contains(p));
                }
                if held(u, p) {
                    let i = choose|i: int|
                        0 <= i < u.len() && (#[trigger] u[i]).entries.contains(p);
                    if i != k {
                        assert(u[i] == v[i]);
                        assert(v[i].entries.contains(p));
                    } else if p != e {
                        assert(v[k as int].entries.contains(p));
                    }
                }
            }
            assert(flatten(u).to_set() =~= flatten(v).to_set().insert(e));
        }
    } else {
        let mut entries: Vec<String> = Vec::new();
        entries.push(entry);
        let cat = Category { name, entries };
        let ghost c = cat@;
        assert(c.entries =~= seq![e]);
        cats.insert(k, cat);
        let ghost u = model(cats@);
        assert(u =~= v.insert(k as int, c));
        proof {
            if k < v.len() {
                lemma_lex_total(n, v[k as int].name);
            }
            lemma_strict_insert(names(v), k as int, n);
            assert(names(u) =~= names(v).insert(k as int, n));
            assert forall|i: int, j: int| 0 <= i < j < u.len() implies lex_lt(
                #[trigger] u[i].name,
                #[trigger] u[j].name,
            ) by {
                assert(lex_lt(names(u)[i], names(u)[j]));
            }
            assert(c.entries[0] == e);
            assert(category_ok(c));
            assert forall|i: int| 0 <= i < u.len() implies category_ok(#[trigger] u[i]) by {
                if i < k {
                    assert(u[i] == v[i]);
                } else if i > k {
                    assert(u[i] == v[i - 1]);
                }
            }
            assert forall|p: Seq<char>| flatten(u).contains(p) <==> (flatten(v).contains(p) || p
                == e) by {
                lemma_flatten_contains(u, p);
                lemma_flatten_contains(v, p);
                if held(v, p) {
                    let i = choose|i: int|
                        0 <= i < v.len() && (#[trigger] v[i]).entries.contains(p);
                    if i < k {
                        assert(u[i] == v[i]);
                        assert(u[i].entries.contains(p));
                    } else {
                        assert(u[i + 1] == v[i]);
                        assert(u[i + 1].entries.contains(p));
                    }
                }
                if p == e {
                    assert(u[k as int].entries.contains(p));
                }
                if held(u, p) {
                    let i = choose|i: int|
                        0 <= i < u.len() && (#[trigger] u[i]).entries.contains(p);
                    if i < k {
                        assert(u[i] == v[i]);
                        assert(v[i].entries.contains(p));
                    } else if i > k {
                        assert(u[i] == v[i - 1]);
                        assert(v[i - 1].entries.contains(p));
                    } else {
                        let o = choose|o: int| 0 <= o < c.entries.len() && c.entries[o] == p;
                        assert(p == e);
                    }
                }
            }
            assert(flatten(u).to_set() =~= flatten(v).to_set().insert(e));
        }
    }
}

/// The snapshot of a listing. `listing` is `None` when the root does not
/// exist; otherwise it holds, in any order, the path relative to the root of
/// every regular file found below it.
///
/// The snapshot holds exactly the listed images that lie inside a category,
/// each once, categories in increasing order of name and without an empty
/// one, entries in increasing order within each.
pub fn enumerate(listing: Option<&Vec<String>>) -> (result: Result<CatalogSnapshot, IndexError>)
    ensures
        listing is None <==> result == Err::<CatalogSnapshot, IndexError>(IndexError::RootMissing),
        listing is Some <==> result is Ok,
        result matches Ok(snapshot) ==> {
            &&& well_formed(snapshot@)
            &&& flatten(snapshot@).to_set() == catalogued(views(listing->0@))
            &&& flatten(snapshot@).len() > 0 <==> has_images(views(listing->0@))
        },
{
    let files = match listing {
        Some(files) => files,
        None => {
            return Err(IndexError::RootMissing);
        },
    };
    let ghost all = views(files@);
    let mut cats: Vec<Category> = Vec::new();
    let mut i: usize = 0;
    proof {
        assert(flatten(model(cats@)).to_set() =~= catalogued(all.subrange(0, 0)));
    }
    while i < files.len()
        invariant
            i <= files.len(),
            all == views(files@),
            well_formed(model(cats@)),
            flatten(model(cats@)).to_set() == catalogued(all.subrange(0, i as int)),
        decreases files.len() - i,
    {
        let file: &String = &files[i];
        proof {
            assert(all.subrange(0, i + 1) =~= all.subrange(0, i as int).push(all[i as int]));
            lemma_catalogued_push(all.subrange(0, i as int), all[i as int]);
        }
        if is_image_path(file.as_str()) {
            match category_name(file.as_str()) {
                Some(name) => {
                    add_entry(&mut cats, name, file.clone());
                },
                None => {},
            }
        }
        i += 1;
    }
    proof {
        assert(all.subrange(0, i as int) =~= all);
        lemma_empty_iff_no_images(model(cats@), all);
    }
    Ok(CatalogSnapshot { categories: cats })
}

impl CatalogSnapshot {
    #[verifier::type_invariant]
    spec fn ordered(self) -> bool {
        well_formed(model(self.categories@))
    }

    /// The number of categories.
    pub fn len(&self) -> (n: usize)
        ensures
            n == self@.len(),
    {
        self.categories.len()
    }

    /// The categories, in order.
    pub fn categories(&self) -> (cats: &Vec<Category>)
        ensures
            model(cats@) == self@,
            well_formed(self@),
    {
        proof {
            use_type_invariant(self);
        }
        &self.categories
    }

    /// The number of entries, over all categories.
    pub fn total(&self) -> (n: usize)
        ensures
            n == flatten(self@).len(),
    {
        let flat = self.entries();
        flat.len()
    }

    /// All entries, category after category.
    pub fn entries(&self) -> (flat: Vec<String>)
        ensures
            views(flat@) == flatten(self@),
    {
        let mut flat: Vec<String> = Vec::new();
        let mut i: usize = 0;
        let ghost v = model(self.categories@);
        while i < self.categories.len()
            invariant
                i <= self.categories.len(),
                v == model(self.categories@),
                views(flat@) == flatten(v.subrange(0, i as int)),
            decreases self.categories.len() - i,
        {
            let cat = &self.categories[i];
            let ghost before = views(flat@);
            let mut j: usize = 0;
            while j < cat.entries.len()
                invariant
                    j <= cat.entries.len(),
                    views(flat@) == before + views(cat.entries@).subrange(0, j as int),
                decreases cat.entries.len() - j,
            {
                let ghost prev = views(flat@);
                let entry = cat.entries[j].clone();
                flat.push(entry);
                assert(views(flat@) =~= prev.push(cat.entries@[j as int]@));
                j += 1;
            }
            proof {
                let next = v.subrange(0, i + 1);
                assert(next.drop_last() =~= v.subrange(0, i as int));
            }
            i += 1;
        }
        assert(v.subrange(0, i as int) =~= v);
        flat
    }
}

} // verus!
