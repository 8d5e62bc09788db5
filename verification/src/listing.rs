//! The ordered directory listing one panel scrolls over: a synthetic
//! parent link first (unless the path has no parent), then the real
//! entries sorted byte-wise by raw name. Reading the directory happens
//! outside; this module receives the entries as plain values, orders and
//! assembles them, and decides what selecting an entry means. A failed
//! read is stored as a typed error and the listing then has length 0.

use vstd::prelude::*;

use crate::order::lemma_lex_le_transitive;
use crate::order::lemma_lex_lt_asymmetric;
use crate::order::lex_le;
use crate::order::lex_lt;
use crate::order::name_le;

verus! {

/// Opening byte of the bracketed display form of a directory name.
pub const OPEN_BRACKET: u8 = 91;

/// Closing byte of the bracketed display form of a directory name.
pub const CLOSE_BRACKET: u8 = 93;

/// An ASCII full stop, as in the `[..]` parent row.
pub const DOT: u8 = 46;

/// What the listing logic reads of one filesystem entry, as plain values:
/// the raw name bytes, whether the entry resolves (following symbolic
/// links) to a directory, and whether that directory can actually be
/// opened. The filesystem checks themselves happen outside.
#[derive(Debug)]
pub struct EntryInfo {
    /// Raw file name, byte-wise.
    pub name: Vec<u8>,
    /// The entry resolves to a directory; selecting it descends into it.
    pub is_dir: bool,
    /// The entry resolves to a directory that can be opened; used only
    /// for display styling.
    pub openable_dir: bool,
}

/// One row of a directory listing.
#[derive(Debug)]
pub enum DirItem {
    /// The synthetic first row leading to the parent directory; holds the
    /// parent's path bytes.
    ParentLink(Vec<u8>),
    /// A real entry of the directory.
    Named(EntryInfo),
}

/// Why a directory could not be read.
#[derive(Clone, Copy, PartialEq, Eq, Structural, Debug)]
pub enum ReadError {
    /// The caller may not list the directory.
    PermissionDenied,
    /// The path no longer exists.
    NotFound,
    /// The path exists but is not a directory.
    NotADirectory,
    /// Any other read failure.
    Other,
}

/// The backing sequence of the directory panel: the assembled rows, or
/// the typed error a failed read left behind.
pub struct Listing {
    /// The rows, or the read error shown in their place.
    pub items: Result<Vec<DirItem>, ReadError>,
}

/// The names of `entries` appear in byte-wise sorted order.
pub open spec fn sorted_by_name(entries: Seq<EntryInfo>) -> bool {
    forall|i: int, j: int|
        0 <= i < j < entries.len() ==> lex_le(#[trigger] entries[i].name@, #[trigger] entries[j].name@)
}

/// The entry a `Named` row carries.
pub open spec fn entry_of(item: DirItem) -> EntryInfo {
    match item {
        DirItem::Named(e) => e,
        DirItem::ParentLink(_) => arbitrary(),
    }
}

/// The entries carried by a sequence of rows.
pub open spec fn entries_of(items: Seq<DirItem>) -> Seq<EntryInfo> {
    items.map_values(|item: DirItem| entry_of(item))
}

impl Listing {
    /// How many rows the panel scrolls over; a failed read reads as 0.
    pub open spec fn spec_len(self) -> nat {
        match self.items {
            Ok(v) => v@.len(),
            Err(_) => 0,
        }
    }

    /// Length of the backing sequence the viewport is given.
    pub fn len(&self) -> (n: usize)
        ensures
            n == self.spec_len(),
    {
        match &self.items {
            Ok(v) => v.len(),
            Err(_) => 0,
        }
    }
}

/// Sort directory entries byte-wise by raw name. The result holds exactly
/// the given entries, in sorted order.
pub fn sort_entries(entries: Vec<EntryInfo>) -> (r: Vec<EntryInfo>)
    ensures
        r@.to_multiset() == entries@.to_multiset(),
        r@.len() == entries@.len(),
        sorted_by_name(r@),
{
    let ghost orig = entries@;
    let mut rest = entries;
    let mut result: Vec<EntryInfo> = Vec::new();
    proof {
        broadcast use vstd::seq_lib::group_to_multiset_ensures;

        assert(rest@.to_multiset().add(result@.to_multiset()) =~= orig.to_multiset());
    }
    while rest.len() > 0
        invariant
            sorted_by_name(result@),
            rest@.to_multiset().add(result@.to_multiset()) == orig.to_multiset(),
            rest@.len() + result@.len() == orig.len(),
        decreases rest@.len(),
    {
        let ghost pre = rest@;
        let e = rest.pop().unwrap();
        proof {
            broadcast use vstd::seq_lib::to_multiset_build;

            assert(pre =~= rest@.push(e));
            assert(pre.to_multiset() == rest@.to_multiset().insert(e));
        }
        let pos = insertion_point(&result, &e.name);
        proof {
            broadcast use vstd::seq_lib::to_multiset_insert;

            assert forall|i: int, j: int|
                0 <= i < j
                    < result@.insert(pos as int, e).len() implies lex_le(
                #[trigger] result@.insert(pos as int, e)[i].name@,
                #[trigger] result@.insert(pos as int, e)[j].name@,
            ) by {
                let s = result@.insert(pos as int, e);
                if j < pos {
                    assert(s[i] == result@[i] && s[j] == result@[j]);
                } else if i > pos {
                    assert(s[i] == result@[i - 1] && s[j] == result@[j - 1]);
                } else if i < pos && j == pos {
                    assert(s[i] == result@[i] && s[j] == e);
                } else if i == pos && j > pos {
                    assert(s[i] == e && s[j] == result@[j - 1]);
                    lemma_lex_lt_asymmetric(e.name@, result@[pos as int].name@);
                    if j - 1 > pos {
                        lemma_lex_le_transitive(
                            e.name@,
                            result@[pos as int].name@,
                            result@[j - 1].name@,
                        );
                    }
                } else if i < pos && j > pos {
                    assert(s[i] == result@[i] && s[j] == result@[j - 1]);
                }
            }
        }
        result.insert(pos, e);
    }
    proof {
        broadcast use vstd::seq_lib::group_to_multiset_ensures;

        assert(rest@ =~= Seq::<EntryInfo>::empty());
        assert(result@.to_multiset() =~= orig.to_multiset());
    }
    result
}

/// Where to insert a name into a sorted run of entries: the first
/// position whose entry sorts strictly after the name, so equal names
/// keep their arrival order.
fn insertion_point(result: &Vec<EntryInfo>, name: &Vec<u8>) -> (pos: usize)
    requires
        sorted_by_name(result@),
    ensures
        0 <= pos <= result@.len(),
        forall|j: int| 0 <= j < pos ==> lex_le(#[trigger] result@[j].name@, name@),
        pos < result@.len() ==> lex_lt(name@, result@[pos as int].name@),
{
    let mut pos: usize = 0;
    while pos < result.len()
        invariant
            0 <= pos <= result@.len(),
            forall|j: int| 0 <= j < pos ==> lex_le(#[trigger] result@[j].name@, name@),
        decreases result@.len() - pos,
    {
        if !name_le(&result[pos].name, name) {
            return pos;
        }
        pos = pos + 1;
    }
    pos
}

/// Assemble the backing sequence for a directory just read: on success,
/// a parent link first unless the path has no parent (the filesystem
/// root), then the entries sorted byte-wise by name; on failure, the
/// typed error, and the listing has length 0.
pub fn build_listing(parent: Option<Vec<u8>>, read_result: Result<Vec<EntryInfo>, ReadError>) -> (r:
    Listing)
    ensures
        read_result matches Err(e) ==> r.items == Err::<Vec<DirItem>, ReadError>(e),
        read_result matches Ok(entries) ==> (r.items matches Ok(v) && {
            let off: int = if parent is Some {
                1
            } else {
                0
            };
            &&& v@.len() == entries@.len() + off
            &&& (parent matches Some(p) ==> v@[0] == DirItem::ParentLink(p))
            &&& forall|i: int| off <= i < v@.len() ==> #[trigger] v@[i] is Named
            &&& entries_of(v@.skip(off)).to_multiset() == entries@.to_multiset()
            &&& sorted_by_name(entries_of(v@.skip(off)))
        }),
{
    match read_result {
        Err(e) => Listing { items: Err(e) },
        Ok(entries) => {
            let ghost parent0 = parent;
            let mut sorted = sort_entries(entries);
            let ghost sorted0 = sorted@;
            let mut items: Vec<DirItem> = Vec::new();
            let ghost off: int = if parent is Some {
                1
            } else {
                0
            };
            match parent {
                Some(p) => items.push(DirItem::ParentLink(p)),
                None => {},
            }
            while sorted.len() > 0
                invariant
                    off == (if parent0 is Some {
                        1int
                    } else {
                        0int
                    }),
                    items@.len() == off + sorted0.len() - sorted@.len(),
                    sorted@.len() <= sorted0.len(),
                    sorted@ =~= sorted0.skip(items@.len() - off),
                    off == 0 || (parent0 matches Some(p) && items@[0] == DirItem::ParentLink(p)),
                    forall|k: int|
                        off <= k < items@.len() ==> items@[k] == DirItem::Named(
                            sorted0[k - off],
                        ),
                decreases sorted@.len(),
            {
                let ghost sorted_pre = sorted@;
                let e = sorted.remove(0);
                let ghost e0 = e;
                let ghost items_pre = items@;
                proof {
                    assert(sorted_pre[0] == sorted0.skip(items_pre.len() - off)[0]);
                    assert(e0 == sorted0[items_pre.len() - off]);
                }
                items.push(DirItem::Named(e));
                proof {
                    assert(items@ == items_pre.push(DirItem::Named(e0)));
                    assert forall|k: int|
                        off <= k < items@.len() implies items@[k] == DirItem::Named(
                        sorted0[k - off],
                    ) by {
                        if k < items_pre.len() {
                            assert(items_pre.push(DirItem::Named(e0))[k] == items_pre[k]);
                        } else {
                            assert(items_pre.push(DirItem::Named(e0))[k] == DirItem::Named(e0));
                        }
                    }
                    if off == 1 {
                        assert(items_pre.push(DirItem::Named(e0))[0] == items_pre[0]);
                    }
                    assert(sorted@ =~= sorted0.skip(items@.len() - off));
                }
            }
            proof {
                assert(entries_of(items@.skip(off)) =~= sorted0);
            }
            Listing { items: Ok(items) }
        },
    }
}

/// Display bytes of one listing row: the parent row shows `[..]`; a name
/// that resolves to an openable directory is bracketed; any other name is
/// shown as it is.
pub open spec fn display_name_spec(item: DirItem) -> Seq<u8> {
    match item {
        DirItem::ParentLink(_) => seq![OPEN_BRACKET, DOT, DOT, CLOSE_BRACKET],
        DirItem::Named(e) => if e.openable_dir {
            seq![OPEN_BRACKET] + e.name@ + seq![CLOSE_BRACKET]
        } else {
            e.name@
        },
    }
}

/// Render one listing row's display bytes.
pub fn display_name(item: &DirItem) -> (r: Vec<u8>)
    ensures
        r@ == display_name_spec(*item),
{
    let mut r: Vec<u8> = Vec::new();
    match item {
        DirItem::ParentLink(_) => {
            r.push(OPEN_BRACKET);
            r.push(DOT);
            r.push(DOT);
            r.push(CLOSE_BRACKET);
            proof {
                assert(r@ =~= display_name_spec(*item));
            }
        },
        DirItem::Named(e) => {
            if e.openable_dir {
                r.push(OPEN_BRACKET);
            }
            let mut k: usize = 0;
            while k < e.name.len()
                invariant
                    0 <= k <= e.name@.len(),
                    r@ =~= (if e.openable_dir {
                        seq![OPEN_BRACKET]
                    } else {
                        Seq::<u8>::empty()
                    }) + e.name@.take(k as int),
                decreases e.name@.len() - k,
            {
                r.push(e.name[k]);
                k = k + 1;
            }
            if e.openable_dir {
                r.push(CLOSE_BRACKET);
            }
            proof {
                assert(r@ =~= display_name_spec(*item));
            }
        },
    }
    r
}

/// Whether a row is drawn in the directory style: the parent row always
/// is; a named row is when it resolves to an openable directory. Used
/// purely for display styling, never to block navigation.
pub fn is_navigable(item: &DirItem) -> (r: bool)
    ensures
        r == (match *item {
            DirItem::ParentLink(_) => true,
            DirItem::Named(e) => e.openable_dir,
        }),
{
    match item {
        DirItem::ParentLink(_) => true,
        DirItem::Named(e) => e.openable_dir,
    }
}

/// What pressing Enter on the panel does.
#[derive(Clone, Copy, PartialEq, Eq, Structural, Debug)]
pub enum EnterAction {
    /// Load the parent directory (the caller skips this when the path has
    /// none).
    GoParent,
    /// Load the selected entry as a directory.
    EnterDir,
    /// Open the selected entry in the file viewer.
    OpenFile,
    /// Nothing to act on.
    Stay,
}

/// The Enter decision: on a failed listing, retry by loading the parent;
/// on the parent row, go up; on a directory entry, descend; on any other
/// entry, open the viewer; with no row at the selection, stay.
pub open spec fn enter_action_spec(listing: Listing, selected: int) -> EnterAction {
    match listing.items {
        Ok(v) => if 0 <= selected < v@.len() {
            match v@[selected] {
                DirItem::ParentLink(_) => EnterAction::GoParent,
                DirItem::Named(e) => if e.is_dir {
                    EnterAction::EnterDir
                } else {
                    EnterAction::OpenFile
                },
            }
        } else {
            EnterAction::Stay
        },
        Err(_) => EnterAction::GoParent,
    }
}

/// Decide what pressing Enter at the current selection does.
pub fn enter_action(listing: &Listing, selected: usize) -> (a: EnterAction)
    ensures
        a == enter_action_spec(*listing, selected as int),
{
    match &listing.items {
        Ok(v) => {
            if selected < v.len() {
                match &v[selected] {
                    DirItem::ParentLink(_) => EnterAction::GoParent,
                    DirItem::Named(e) => if e.is_dir {
                        EnterAction::EnterDir
                    } else {
                        EnterAction::OpenFile
                    },
                }
            } else {
                EnterAction::Stay
            }
        },
        Err(_) => EnterAction::GoParent,
    }
}

} // verus!
