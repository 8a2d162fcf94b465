//! The directory entry catalog: the ordered list of viewable image files
//! inside one directory, and the navigation over it.
//!
//! A catalog is rebuilt from a fresh directory listing whenever the active
//! directory changes or an entry is removed; it is never patched in place.
//! Its order is byte-wise on file names, so repeated scans of an unchanged
//! directory give the same sequence.

use crate::classify::{image_kind, image_kind_of, ImageKind};
use crate::order::{
    bytes_eq_exec, bytes_le, bytes_le_exec, bytes_lt, lemma_bytes_le_antisym,
    lemma_bytes_le_refl, lemma_bytes_lt_trans, lemma_bytes_not_lt,
};
use vstd::math::min;
use vstd::prelude::*;
use vstd::relations::{
    antisymmetric, reflexive, sorted_by, strongly_connected, total_ordering, transitive,
};
use vstd::multiset::Multiset;
use vstd::seq_lib::lemma_sorted_unique;

verus! {

broadcast use {vstd::seq_lib::group_to_multiset_ensures, vstd::multiset::group_multiset_axioms};

/// One raw child of a directory, as the host's enumeration reports it:
/// its file name, its full path, whether it is a subdirectory, and the
/// outcome of reading its leading content (`None` when the read failed).
pub struct DirChild {
    pub name: Vec<u8>,
    pub path: Vec<u8>,
    pub is_dir: bool,
    pub content: Option<Vec<u8>>,
}

/// The mathematical value of a [`DirChild`].
#[verifier::ext_equal]
pub ghost struct DirChildV {
    pub name: Seq<u8>,
    pub path: Seq<u8>,
    pub is_dir: bool,
    pub content: Option<Seq<u8>>,
}

impl View for DirChild {
    type V = DirChildV;

    open spec fn view(&self) -> DirChildV {
        DirChildV {
            name: self.name@,
            path: self.path@,
            is_dir: self.is_dir,
            content: self.content.deep_view(),
        }
    }
}

impl DeepView for DirChild {
    type V = DirChildV;

    open spec fn deep_view(&self) -> DirChildV {
        self.view()
    }
}

/// One catalog element: a viewable image file.  The file name is the sort
/// key of the catalog; the path is what the host needs to open or trash
/// the file; the kind records which supported format its content carries.
pub struct Entry {
    pub path: Vec<u8>,
    pub name: Vec<u8>,
    pub kind: ImageKind,
}

/// The mathematical value of an [`Entry`].
#[verifier::ext_equal]
pub ghost struct EntryV {
    pub path: Seq<u8>,
    pub name: Seq<u8>,
    pub kind: ImageKind,
}

impl View for Entry {
    type V = EntryV;

    open spec fn view(&self) -> EntryV {
        EntryV { path: self.path@, name: self.name@, kind: self.kind }
    }
}

impl DeepView for Entry {
    type V = EntryV;

    open spec fn deep_view(&self) -> EntryV {
        self.view()
    }
}

/// A fixed rank for each image kind, used only to break ties so that the
/// entry order is antisymmetric on all values.
pub open spec fn kind_rank(k: ImageKind) -> int {
    match k {
        ImageKind::Ico => 0,
        ImageKind::Gif => 1,
        ImageKind::Png => 2,
        ImageKind::Jpeg => 3,
        ImageKind::Webp => 4,
    }
}

/// The catalog order on entries: byte-wise by file name; the path and the
/// kind rank only break ties, which never arise between distinct children
/// of one directory.
pub open spec fn entry_le(a: EntryV, b: EntryV) -> bool {
    ||| bytes_lt(a.name, b.name)
    ||| (a.name == b.name && (bytes_lt(a.path, b.path) || (a.path == b.path && kind_rank(a.kind)
        <= kind_rank(b.kind))))
}

/// The entry order as a relation value, so that every statement about the
/// catalog speaks of one and the same ordering.
pub open spec fn catalog_order() -> spec_fn(EntryV, EntryV) -> bool {
    |a: EntryV, b: EntryV| entry_le(a, b)
}

proof fn lemma_kind_rank_injective(a: ImageKind, b: ImageKind)
    requires
        kind_rank(a) == kind_rank(b),
    ensures
        a == b,
{
}

pub proof fn lemma_entry_le_antisym(a: EntryV, b: EntryV)
    requires
        entry_le(a, b),
        entry_le(b, a),
    ensures
        a == b,
{
    if a.name != b.name {
        lemma_bytes_le_antisym(a.name, b.name);
    }
    if a.path != b.path {
        lemma_bytes_le_antisym(a.path, b.path);
    }
    lemma_kind_rank_injective(a.kind, b.kind);
    assert(a =~= b);
}

pub proof fn lemma_entry_le_trans(a: EntryV, b: EntryV, c: EntryV)
    requires
        entry_le(a, b),
        entry_le(b, c),
    ensures
        entry_le(a, c),
{
    if bytes_lt(a.name, b.name) && bytes_lt(b.name, c.name) {
        lemma_bytes_lt_trans(a.name, b.name, c.name);
    } else if a.name == b.name && b.name == c.name {
        if bytes_lt(a.path, b.path) && bytes_lt(b.path, c.path) {
            lemma_bytes_lt_trans(a.path, b.path, c.path);
        }
    }
}

pub proof fn lemma_entry_le_total(a: EntryV, b: EntryV)
    ensures
        entry_le(a, b) || entry_le(b, a),
{
    if !bytes_lt(a.name, b.name) && !bytes_lt(b.name, a.name) {
        lemma_bytes_not_lt(a.name, b.name);
        if !bytes_lt(a.path, b.path) && !bytes_lt(b.path, a.path) {
            lemma_bytes_not_lt(a.path, b.path);
        }
    }
}

/// The catalog order is a total ordering on entry values.
pub proof fn lemma_catalog_order_total()
    ensures
        total_ordering(catalog_order()),
{
    let leq = catalog_order();
    assert forall|a: EntryV| #[trigger] leq(a, a) by {
        lemma_bytes_le_refl(a.name);
    }
    assert(reflexive(leq));
    assert forall|a: EntryV, b: EntryV| #[trigger] leq(a, b) && #[trigger] leq(b, a) implies a
        == b by {
        lemma_entry_le_antisym(a, b);
    }
    assert(antisymmetric(leq));
    assert forall|a: EntryV, b: EntryV, c: EntryV|
        #[trigger] leq(a, b) && #[trigger] leq(b, c) implies leq(a, c) by {
        lemma_entry_le_trans(a, b, c);
    }
    assert(transitive(leq));
    assert forall|a: EntryV, b: EntryV| #[trigger] leq(a, b) || #[trigger] leq(b, a) by {
        lemma_entry_le_total(a, b);
    }
    assert(strongly_connected(leq));
}

fn kind_rank_exec(k: ImageKind) -> (r: u8)
    ensures
        r as int == kind_rank(k),
{
    match k {
        ImageKind::Ico => 0,
        ImageKind::Gif => 1,
        ImageKind::Png => 2,
        ImageKind::Jpeg => 3,
        ImageKind::Webp => 4,
    }
}

/// Executable decision of the catalog order on two entries.
pub fn entry_le_exec(a: &Entry, b: &Entry) -> (r: bool)
    ensures
        r == entry_le(a@, b@),
{
    if bytes_eq_exec(&a.name, &b.name) {
        if bytes_eq_exec(&a.path, &b.path) {
            kind_rank_exec(a.kind) <= kind_rank_exec(b.kind)
        } else {
            bytes_le_exec(&a.path, &b.path)
        }
    } else {
        bytes_le_exec(&a.name, &b.name)
    }
}

/// The index of the last `.` in a file name, or -1 when there is none.
pub open spec fn last_dot(name: Seq<u8>) -> int
    decreases name.len(),
{
    if name.len() == 0 {
        -1
    } else if name.last() == 0x2Eu8 {
        name.len() - 1
    } else {
        last_dot(name.drop_last())
    }
}

/// The display name of a file: everything before the final extension.
/// A name without a `.`, and a name whose only `.` leads it, stand as
/// they are.
pub open spec fn stem_of(name: Seq<u8>) -> Seq<u8> {
    let d = last_dot(name);
    if d > 0 {
        name.take(d)
    } else {
        name
    }
}

fn last_dot_exec(name: &Vec<u8>) -> (r: Option<usize>)
    ensures
        match r {
            Some(d) => d < name@.len() && last_dot(name@) == d as int,
            None => last_dot(name@) == -1,
        },
{
    let mut i: usize = name.len();
    proof {
        assert(name@.take(name@.len() as int) =~= name@);
    }
    while i > 0
        invariant
            i <= name@.len(),
            last_dot(name@) == last_dot(name@.take(i as int)),
        decreases i,
    {
        if name[i - 1] == 0x2Eu8 {
            proof {
                assert(name@.take(i as int).last() == name@[i as int - 1]);
            }
            return Some(i - 1);
        }
        proof {
            assert(name@.take(i as int).drop_last() =~= name@.take(i as int - 1));
        }
        i = i - 1;
    }
    proof {
        assert(name@.take(0) =~= Seq::<u8>::empty());
    }
    None
}

impl Entry {
    /// The display name of this entry: the file stem of its name.
    pub fn display_name(&self) -> (r: Vec<u8>)
        ensures
            r@ == stem_of(self.name@),
    {
        let cut: usize = match last_dot_exec(&self.name) {
            Some(d) => if d > 0 {
                d
            } else {
                self.name.len()
            },
            None => self.name.len(),
        };
        let mut out: Vec<u8> = Vec::new();
        proof {
            assert(out@ =~= self.name@.take(0));
        }
        let mut j: usize = 0;
        while j < cut
            invariant
                j <= cut,
                cut <= self.name@.len(),
                out@ == self.name@.take(j as int),
            decreases cut - j,
        {
            out.push(self.name[j]);
            proof {
                assert(self.name@.take(j as int).push(self.name@[j as int]) =~= self.name@.take(
                    j as int + 1,
                ));
            }
            j = j + 1;
        }
        proof {
            assert(self.name@.take(self.name@.len() as int) =~= self.name@);
        }
        out
    }
}

/// The supported image format of a directory child: `None` for a
/// subdirectory, for unreadable content and for content of any other type.
pub open spec fn child_image_kind(c: DirChildV) -> Option<ImageKind> {
    if c.is_dir {
        None
    } else {
        match c.content {
            None => None,
            Some(data) => image_kind_of(data),
        }
    }
}

/// The entries a directory listing contributes, one per supported image,
/// in listing order: subdirectories, unreadable files and files of other
/// content types contribute nothing.
pub open spec fn image_entries_of(s: Seq<DirChildV>) -> Seq<EntryV>
    decreases s.len(),
{
    if s.len() == 0 {
        Seq::empty()
    } else {
        let rest = image_entries_of(s.drop_last());
        match child_image_kind(s.last()) {
            Some(k) => rest.push(EntryV { path: s.last().path, name: s.last().name, kind: k }),
            None => rest,
        }
    }
}

/// What a catalog built from a directory listing holds: the entries of
/// the supported images, sorted by the catalog order.
pub open spec fn catalog_of(s: Seq<DirChildV>) -> Seq<EntryV> {
    image_entries_of(s).sort_by(catalog_order())
}

/// Whether some child of the listing is a supported image with the given
/// path, name and kind.
pub open spec fn listing_has_image(s: Seq<DirChildV>, e: EntryV) -> bool {
    exists|k: int|
        0 <= k < s.len() && child_image_kind(#[trigger] s[k]) == Some(e.kind) && s[k].path
            == e.path && s[k].name == e.name
}

proof fn lemma_sorted_insert(s: Seq<EntryV>, j: int, e: EntryV)
    requires
        sorted_by(s, catalog_order()),
        0 <= j <= s.len(),
        forall|k: int| 0 <= k < j ==> entry_le(#[trigger] s[k], e),
        forall|k: int| j <= k < s.len() ==> entry_le(e, #[trigger] s[k]),
    ensures
        sorted_by(s.insert(j, e), catalog_order()),
{
    let t = s.insert(j, e);
    s.insert_ensures(j, e);
    assert forall|x: int, y: int| 0 <= x < y < t.len() implies #[trigger] catalog_order()(
        t[x],
        t[y],
    ) by {
        if x < j && y < j {
            assert(catalog_order()(s[x], s[y]));
        } else if x < j && y == j {
            assert(entry_le(s[x], e));
        } else if x < j && y > j {
            assert(catalog_order()(s[x], s[y - 1]));
        } else if x == j && y > j {
            assert(entry_le(e, s[y - 1]));
        } else if x > j {
            assert(catalog_order()(s[x - 1], s[y - 1]));
        }
    }
}

/// Sorts entries into the catalog order; the result is the one sorted
/// arrangement of the given entries.
fn sort_entries(v: Vec<Entry>) -> (r: Vec<Entry>)
    ensures
        r.deep_view() == v.deep_view().sort_by(catalog_order()),
{
    proof {
        lemma_catalog_order_total();
    }
    let mut rest = v;
    let mut out: Vec<Entry> = Vec::new();
    proof {
        assert(out.deep_view() =~= Seq::<EntryV>::empty());
        assert(out.deep_view().to_multiset().add(rest.deep_view().to_multiset())
            =~= v.deep_view().to_multiset());
    }
    while rest.len() > 0
        invariant
            sorted_by(out.deep_view(), catalog_order()),
            out.deep_view().to_multiset().add(rest.deep_view().to_multiset())
                == v.deep_view().to_multiset(),
        decreases rest.len(),
    {
        let ghost prev_rest = rest.deep_view();
        let ghost old_out = out.deep_view();
        let e = rest.pop().unwrap();
        proof {
            assert(prev_rest =~= rest.deep_view().push(e@));
        }
        let mut j: usize = 0;
        while j < out.len() && entry_le_exec(&out[j], &e)
            invariant
                j <= out.len(),
                out.deep_view() == old_out,
                forall|k: int| 0 <= k < j ==> entry_le(#[trigger] old_out[k], e@),
            decreases out.len() - j,
        {
            j = j + 1;
        }
        proof {
            assert forall|k: int| j <= k < old_out.len() implies entry_le(
                e@,
                #[trigger] old_out[k],
            ) by {
                lemma_entry_le_total(old_out[j as int], e@);
                if k > j {
                    assert(catalog_order()(old_out[j as int], old_out[k]));
                    lemma_entry_le_trans(e@, old_out[j as int], old_out[k]);
                }
            }
        }
        out.insert(j, e);
        proof {
            assert(out.deep_view() =~= old_out.insert(j as int, e@));
            lemma_sorted_insert(old_out, j as int, e@);
            assert(old_out.insert(j as int, e@).to_multiset() == old_out.to_multiset().insert(
                e@,
            ));
            assert(prev_rest.to_multiset() == rest.deep_view().to_multiset().insert(e@));
            assert(out.deep_view().to_multiset().add(rest.deep_view().to_multiset())
                =~= v.deep_view().to_multiset());
        }
    }
    proof {
        assert(rest.deep_view() =~= Seq::<EntryV>::empty());
        assert(rest.deep_view().to_multiset() =~= Multiset::<EntryV>::empty());
        assert(out.deep_view().to_multiset() =~= v.deep_view().to_multiset());
        let spec_sorted = v.deep_view().sort_by(catalog_order());
        v.deep_view().lemma_sort_by_ensures(catalog_order());
        lemma_sorted_unique(out.deep_view(), spec_sorted, catalog_order());
        assert(out.deep_view() =~= spec_sorted);
    }
    out
}

/// The ordered list of viewable image entries of one directory: the sole
/// navigation index.  "Next" and "previous" are successor and predecessor
/// in this order; there is no wraparound.
pub struct Catalog {
    entries: Vec<Entry>,
}

impl View for Catalog {
    type V = Seq<EntryV>;

    closed spec fn view(&self) -> Seq<EntryV> {
        self.entries.deep_view()
    }
}

impl Catalog {
    /// A catalog is well formed when its entries stand in the catalog
    /// order.  Every constructor of this module establishes it.
    pub open spec fn wf(&self) -> bool {
        sorted_by(self@, catalog_order())
    }

    /// The catalog of a directory without viewable images.
    pub fn empty() -> (c: Catalog)
        ensures
            c@ == Seq::<EntryV>::empty(),
            c.wf(),
    {
        let c = Catalog { entries: Vec::new() };
        proof {
            assert(c@ =~= Seq::<EntryV>::empty());
        }
        c
    }

    pub fn len(&self) -> (n: usize)
        ensures
            n == self@.len(),
    {
        self.entries.len()
    }

    pub fn get(&self, i: usize) -> (e: &Entry)
        requires
            i < self@.len(),
        ensures
            e@ == self@[i as int],
    {
        &self.entries[i]
    }

    /// The successor index, or the boundary signal `None` at the last
    /// entry: navigation does not wrap.
    pub fn next(&self, i: usize) -> (r: Option<usize>)
        requires
            i < self@.len(),
        ensures
            r == next_index(self@.len() as int, i as int),
    {
        let n = self.entries.len();
        if i + 1 < n {
            Some(i + 1)
        } else {
            None
        }
    }

    /// The predecessor index, or the boundary signal `None` at index 0:
    /// navigation does not wrap.
    pub fn prev(&self, i: usize) -> (r: Option<usize>)
        requires
            i < self@.len(),
        ensures
            r == prev_index(i as int),
    {
        if i > 0 {
            Some(i - 1)
        } else {
            None
        }
    }

    /// The position of the entry with the given path, or `None` when the
    /// file is no longer (or never was) in the catalog — the caller must
    /// then stop navigating or rebuild.
    pub fn index_of(&self, path: &Vec<u8>) -> (r: Option<usize>)
        ensures
            match r {
                Some(j) => j < self@.len() && self@[j as int].path == path@ && forall|k: int|
                    0 <= k < j ==> (#[trigger] self@[k]).path != path@,
                None => forall|k: int|
                    0 <= k < self@.len() ==> (#[trigger] self@[k]).path != path@,
            },
    {
        let mut i: usize = 0;
        while i < self.entries.len()
            invariant
                i <= self@.len(),
                forall|k: int| 0 <= k < i ==> (#[trigger] self@[k]).path != path@,
            decreases self@.len() - i,
        {
            if bytes_eq_exec(&self.entries[i].path, path) {
                return Some(i);
            }
            i = i + 1;
        }
        None
    }

    /// Removes the entry at index `i` after its file was confirmed
    /// trashed, and suggests the next focus: the old successor where one
    /// exists, else the predecessor, else nothing.
    pub fn remove_entry(self, i: usize) -> (r: (Catalog, Option<usize>))
        requires
            i < self@.len(),
        ensures
            r.0@ == self@.remove(i as int),
            self.wf() ==> r.0.wf(),
            r.1 == suggested_focus(self@.len() as int, i as int),
    {
        let ghost old_view = self@;
        let mut entries = self.entries;
        let n = entries.len();
        entries.remove(i);
        proof {
            assert(entries.deep_view() =~= old_view.remove(i as int));
            if sorted_by(old_view, catalog_order()) {
                lemma_sorted_remove(old_view, i as int);
            }
        }
        let focus = if n == 1 {
            None
        } else if i + 1 < n {
            Some(i)
        } else {
            Some(i - 1)
        };
        (Catalog { entries }, focus)
    }
}

/// Successor navigation: the next index, without wraparound.
pub open spec fn next_index(len: int, i: int) -> Option<usize> {
    if i + 1 < len {
        Some((i + 1) as usize)
    } else {
        None
    }
}

/// Predecessor navigation: the previous index, without wraparound.
pub open spec fn prev_index(i: int) -> Option<usize> {
    if i > 0 {
        Some((i - 1) as usize)
    } else {
        None
    }
}

/// The focus suggested after removing index `i` from a catalog of `len`
/// entries: `min(i, len - 2)` in the shrunken catalog, or nothing when
/// the catalog became empty.
pub open spec fn suggested_focus(len: int, i: int) -> Option<usize> {
    if len <= 1 {
        None
    } else {
        Some(min(i, len - 2) as usize)
    }
}

/// Removing one element of a sorted sequence keeps it sorted.
pub proof fn lemma_sorted_remove(s: Seq<EntryV>, i: int)
    requires
        sorted_by(s, catalog_order()),
        0 <= i < s.len(),
    ensures
        sorted_by(s.remove(i), catalog_order()),
{
    let t = s.remove(i);
    assert forall|x: int, y: int| 0 <= x < y < t.len() implies #[trigger] catalog_order()(
        t[x],
        t[y],
    ) by {
        if y < i {
            assert(catalog_order()(s[x], s[y]));
        } else if x < i {
            assert(catalog_order()(s[x], s[y + 1]));
        } else {
            assert(catalog_order()(s[x + 1], s[y + 1]));
        }
    }
}

/// Builds the catalog of one directory from its raw listing: classifies
/// every child by content, discards subdirectories, unreadable files and
/// non-images, and sorts what is left by file name, byte-wise ascending.
/// The seed file itself is one of the children and so appears at its
/// sorted position when it is a supported image.
pub fn build_catalog(children: &Vec<DirChild>) -> (c: Catalog)
    ensures
        c@ == catalog_of(children.deep_view()),
        c.wf(),
        forall|e: EntryV| #[trigger] c@.contains(e) <==> listing_has_image(
            children.deep_view(),
            e,
        ),
{
    proof {
        lemma_catalog_order_total();
    }
    let mut found: Vec<Entry> = Vec::new();
    proof {
        assert(found.deep_view() =~= Seq::<EntryV>::empty());
        assert(children.deep_view().take(0) =~= Seq::<DirChildV>::empty());
    }
    let mut i: usize = 0;
    while i < children.len()
        invariant
            i <= children.len(),
            found.deep_view() == image_entries_of(children.deep_view().take(i as int)),
        decreases children.len() - i,
    {
        let ghost pre = children.deep_view().take(i as int);
        let ghost post = children.deep_view().take(i as int + 1);
        proof {
            assert(post.drop_last() =~= pre);
            assert(post.last() == children.deep_view()[i as int]);
        }
        let ghost old_found = found.deep_view();
        let child = &children[i];
        if !child.is_dir {
            match &child.content {
                Some(data) => {
                    match image_kind(data) {
                        Some(kind) => {
                            let entry = Entry {
                                path: child.path.clone(),
                                name: child.name.clone(),
                                kind,
                            };
                            proof {
                                assert(entry.path@ =~= child.path@);
                                assert(entry.name@ =~= child.name@);
                            }
                            found.push(entry);
                            proof {
                                assert(found.deep_view() =~= old_found.push(entry@));
                            }
                        },
                        None => {},
                    }
                },
                None => {},
            }
        }
        i = i + 1;
    }
    proof {
        assert(children.deep_view().take(children.len() as int) =~= children.deep_view());
    }
    let sorted = sort_entries(found);
    let c = Catalog { entries: sorted };
    proof {
        lemma_catalog_of_sorted(children.deep_view());
        assert forall|e: EntryV| #[trigger] c@.contains(e) <==> listing_has_image(
            children.deep_view(),
            e,
        ) by {
            crate::laws::lemma_catalog_membership(children.deep_view(), e);
        }
    }
    c
}

/// What a catalog holds is sorted by the catalog order.
pub proof fn lemma_catalog_of_sorted(s: Seq<DirChildV>)
    ensures
        sorted_by(catalog_of(s), catalog_order()),
{
    lemma_catalog_order_total();
    image_entries_of(s).lemma_sort_by_ensures(catalog_order());
}

} // verus!
