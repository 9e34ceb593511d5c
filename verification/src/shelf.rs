//! The shelf: the files, folders and texts collected for later, each with
//! an id that is never handed out twice.

use vstd::prelude::*;
use crate::text::{
    chars_of, is_blank, is_blank_chars, is_dot_name, is_plain_component, path_file_name, plain_tail,
};

verus! {

#[derive(Clone, Copy, Debug, PartialEq, Eq, Structural)]
pub enum ShelfItemKind {
    File,
    Directory,
    Text,
    Other,
}

/// What the file system said of a path when it was dropped on the shelf.
#[derive(Clone, Copy, Debug, PartialEq, Eq, Structural)]
pub struct PathEntry {
    pub is_file: bool,
    pub is_dir: bool,
    /// The length in bytes.
    pub len: u64,
}

/// A dropped path, with what the file system said of it (`None` when it
/// could not be read).
pub struct PathProbe {
    pub path: String,
    pub entry: Option<PathEntry>,
}

#[derive(Debug)]
pub struct ShelfItem {
    pub id: u64,
    pub path: String,
    pub name: String,
    pub kind: ShelfItemKind,
    pub size: Option<u64>,
    pub content: Option<String>,
}

/// A shelf item as the shelf's rules see it: everything but its display name.
pub struct ShelfItemView {
    pub id: u64,
    pub path: Seq<char>,
    pub kind: ShelfItemKind,
    pub size: Option<u64>,
    pub content: Option<Seq<char>>,
}

pub struct PathProbeView {
    pub path: Seq<char>,
    pub entry: Option<PathEntry>,
}

/// The shelf as its rules see it.
pub struct ShelfView {
    pub next_id: u64,
    pub items: Seq<ShelfItemView>,
}

impl View for ShelfItem {
    type V = ShelfItemView;

    open spec fn view(&self) -> ShelfItemView {
        ShelfItemView {
            id: self.id,
            path: self.path@,
            kind: self.kind,
            size: self.size,
            content: match self.content {
                Some(c) => Some(c@),
                None => None,
            },
        }
    }
}

impl View for PathProbe {
    type V = PathProbeView;

    open spec fn view(&self) -> PathProbeView {
        PathProbeView { path: self.path@, entry: self.entry }
    }
}

pub open spec fn item_views(items: Seq<ShelfItem>) -> Seq<ShelfItemView> {
    items.map_values(|it: ShelfItem| it@)
}

pub open spec fn probe_views(probes: Seq<PathProbe>) -> Seq<PathProbeView> {
    probes.map_values(|p: PathProbe| p@)
}

pub open spec fn kind_of(entry: Option<PathEntry>) -> ShelfItemKind {
    match entry {
        Some(e) => if e.is_file {
            ShelfItemKind::File
        } else if e.is_dir {
            ShelfItemKind::Directory
        } else {
            ShelfItemKind::Other
        },
        None => ShelfItemKind::Other,
    }
}

/// Only a file has a size.
pub open spec fn size_of(entry: Option<PathEntry>) -> Option<u64> {
    match entry {
        Some(e) => if e.is_file {
            Some(e.len)
        } else {
            None
        },
        None => None,
    }
}

/// The item that the shelf makes of a dropped path.
pub open spec fn probe_item(id: u64, path: Seq<char>, entry: Option<PathEntry>) -> ShelfItemView {
    ShelfItemView { id, path, kind: kind_of(entry), size: size_of(entry), content: None }
}

/// A display name is the path's last component, or the whole path when it
/// has none: it is the path or a component (not empty, not `.` or `..`);
/// a plain name shows as itself, and `a/b` (see `plain_tail`) as `b`.
pub open spec fn name_ok(path: Seq<char>, name: Seq<char>) -> bool {
    &&& name == path || (name.len() > 0 && !is_dot_name(name))
    &&& is_plain_component(path) ==> name == path
    &&& plain_tail(path) matches Some(b) ==> name == b
}

/// The name that a path is shown under, given its last component.
pub open spec fn spec_display_name(path: Seq<char>, file_name: Option<Seq<char>>) -> Seq<char> {
    match file_name {
        Some(n) => if n.len() > 0 {
            n
        } else {
            path
        },
        None => path,
    }
}

/// The name that `path` is shown under, given its last component as
/// `Path::file_name` found it.
pub fn display_name(path: &String, file_name: Option<String>) -> (r: String)
    ensures
        r@ == spec_display_name(
            path@,
            match file_name {
                Some(n) => Some(n@),
                None => None,
            },
        ),
{
    match file_name {
        Some(n) => if n.as_str().is_empty() {
            path.clone()
        } else {
            n
        },
        None => path.clone(),
    }
}

/// The shelf item for a dropped path.
pub fn build_shelf_item(id: u64, path: String, entry: Option<PathEntry>) -> (item: ShelfItem)
    ensures
        item@ == probe_item(id, path@, entry),
        name_ok(path@, item.name@),
{
    let file_name = path_file_name(path.as_str());
    let name = display_name(&path, file_name);
    let kind = match entry {
        Some(e) => if e.is_file {
            ShelfItemKind::File
        } else if e.is_dir {
            ShelfItemKind::Directory
        } else {
            ShelfItemKind::Other
        },
        None => ShelfItemKind::Other,
    };
    let size = match entry {
        Some(e) => if e.is_file {
            Some(e.len)
        } else {
            None
        },
        None => None,
    };
    ShelfItem { id, path, name, kind, size, content: None }
}

impl ShelfItem {
    /// A copy of the item.
    pub fn duplicate(&self) -> (r: ShelfItem)
        ensures
            r == *self,
    {
        let content = match &self.content {
            Some(c) => Some(c.clone()),
            None => None,
        };
        ShelfItem {
            id: self.id,
            path: self.path.clone(),
            name: self.name.clone(),
            kind: self.kind,
            size: self.size,
            content,
        }
    }
}

/// Whether a dropped path goes on the shelf: it is not blank and not there yet.
pub open spec fn accepts(items: Seq<ShelfItemView>, path: Seq<char>) -> bool {
    &&& !is_blank(path)
    &&& forall|k: int| 0 <= k < items.len() ==> items[k].path != path
}

/// The shelf after one dropped path.
pub open spec fn add_one(s: ShelfView, p: PathProbeView) -> ShelfView {
    if accepts(s.items, p.path) {
        let id = (s.next_id + 1) as u64;
        ShelfView { next_id: id, items: s.items.push(probe_item(id, p.path, p.entry)) }
    } else {
        s
    }
}

/// The shelf after the dropped paths `ps`, in order.
pub open spec fn add_all(s: ShelfView, ps: Seq<PathProbeView>) -> ShelfView
    decreases ps.len(),
{
    if ps.len() == 0 {
        s
    } else {
        add_one(add_all(s, ps.drop_last()), ps.last())
    }
}

/// The shelf's invariant: ids rise along the shelf and none is above the
/// last one handed out; no path is there twice, and none is blank.
pub open spec fn shelf_wf(s: ShelfView) -> bool {
    &&& forall|i: int, j: int|
        0 <= i < j < s.items.len() ==> #[trigger] s.items[i].id < #[trigger] s.items[j].id
    &&& forall|i: int| 0 <= i < s.items.len() ==> 0 < #[trigger] s.items[i].id <= s.next_id
    &&& forall|i: int, j: int|
        0 <= i < j < s.items.len() ==> #[trigger] s.items[i].path != #[trigger] s.items[j].path
    &&& forall|i: int| 0 <= i < s.items.len() ==> !is_blank(#[trigger] s.items[i].path)
}

/// The shelf without the item that has id `id`, if there is one.
pub open spec fn remove_spec(items: Seq<ShelfItem>, id: u64) -> Seq<ShelfItem> {
    if exists|i: int| 0 <= i < items.len() && items[i].id == id {
        let i = choose|i: int| 0 <= i < items.len() && items[i].id == id;
        items.remove(i)
    } else {
        items
    }
}

/// The application's shelf.
pub struct AppState {
    next_item_id: u64,
    shelf_items: Vec<ShelfItem>,
}

impl AppState {
    /// The last id handed out (0 before any).
    pub closed spec fn next_id(&self) -> u64 {
        self.next_item_id
    }

    pub closed spec fn items(&self) -> Seq<ShelfItem> {
        self.shelf_items@
    }

    pub open spec fn model(&self) -> ShelfView {
        ShelfView { next_id: self.next_id(), items: item_views(self.items()) }
    }

    pub open spec fn wf(&self) -> bool {
        &&& shelf_wf(self.model())
        &&& forall|i: int|
            0 <= i < self.items().len() ==> name_ok(
                #[trigger] self.items()[i].path@,
                self.items()[i].name@,
            )
    }

    /// An empty shelf.
    pub fn new() -> (s: AppState)
        ensures
            s.wf(),
            s.next_id() == 0,
            s.items().len() == 0,
    {
        AppState { next_item_id: 0, shelf_items: Vec::new() }
    }

    /// The last id handed out (0 before any).
    pub fn last_id(&self) -> (id: u64)
        ensures
            id == self.next_id(),
    {
        self.next_item_id
    }

    /// A copy of the shelf's items, in order.
    pub fn list_shelf_items(&self) -> (r: Vec<ShelfItem>)
        ensures
            r@ == self.items(),
    {
        let mut r: Vec<ShelfItem> = Vec::new();
        let mut i: usize = 0;
        while i < self.shelf_items.len()
            invariant
                i <= self.shelf_items.len(),
                r@ == self.shelf_items@.take(i as int),
            decreases self.shelf_items.len() - i,
        {
            r.push(self.shelf_items[i].duplicate());
            assert(self.shelf_items@.take(i + 1) =~= self.shelf_items@.take(i as int).push(
                self.shelf_items@[i as int],
            ));
            i = i + 1;
        }
        assert(self.shelf_items@.take(i as int) =~= self.shelf_items@);
        r
    }

    /// Whether an item with this path is on the shelf.
    fn contains_path(&self, path: &String) -> (b: bool)
        ensures
            b == exists|k: int| 0 <= k < self.items().len() && self.items()[k].path@ == path@,
    {
        let mut k: usize = 0;
        while k < self.shelf_items.len()
            invariant
                k <= self.shelf_items.len(),
                forall|j: int| 0 <= j < k ==> self.shelf_items@[j].path@ != path@,
            decreases self.shelf_items.len() - k,
        {
            if self.shelf_items[k].path == *path {
                return true;
            }
            k = k + 1;
        }
        false
    }

    /// Puts the dropped paths on the shelf, in order, each under a new id;
    /// blank paths and paths already there are skipped. Returns the shelf.
    pub fn add_shelf_paths(&mut self, probes: Vec<PathProbe>) -> (r: Vec<ShelfItem>)
        requires
            old(self).wf(),
            add_all_fits(old(self).model(), probe_views(probes@)),
        ensures
            final(self).wf(),
            final(self).model() == add_all(old(self).model(), probe_views(probes@)),
            forall|k: int|
                0 <= k < probes@.len() && !is_blank(#[trigger] probes@[k].path@) ==> exists|i: int|
                    0 <= i < final(self).items().len() && final(self).items()[i].path@
                        == probes@[k].path@,
            (forall|k: int|
                0 <= k < probes@.len() ==> !accepts(old(self).model().items, #[trigger] probes@[k].path@))
                ==> final(self).items() == old(self).items() && final(self).next_id() == old(self).next_id(),
            final(self).items().len() >= old(self).items().len(),
            forall|i: int|
                0 <= i < old(self).items().len() ==> #[trigger] final(self).items()[i]
                    == old(self).items()[i],
            forall|i: int|
                old(self).items().len() <= i < final(self).items().len()
                    ==> #[trigger] final(self).items()[i].id > old(self).next_id(),
            r@ == final(self).items(),
    {
        let ghost old_model = self.model();
        let ghost old_items = self.items();
        let ghost pv = probe_views(probes@);
        let mut i: usize = 0;
        assert(pv.take(0) =~= Seq::<PathProbeView>::empty());
        while i < probes.len()
            invariant
                i <= probes.len(),
                pv == probe_views(probes@),
                self.wf(),
                self.model() == add_all(old_model, pv.take(i as int)),
                old_model.next_id <= self.next_id(),
                add_all_fits(old_model, pv),
                old_items.len() <= self.items().len(),
                forall|k: int|
                    0 <= k < old_items.len() ==> #[trigger] self.items()[k] == old_items[k],
                forall|k: int|
                    old_items.len() <= k < self.items().len() ==> #[trigger] self.items()[k].id
                        > old_model.next_id,
                old_model.next_id == old(self).next_id(),
                old_items == old(self).items(),
                old_model == old(self).model(),
            decreases probes.len() - i,
        {
            let probe = &probes[i];
            let cs = chars_of(probe.path.as_str());
            let blank = is_blank_chars(&cs);
            let present = self.contains_path(&probe.path);
            let ghost before = self.model();
            assert(pv.take(i + 1).drop_last() =~= pv.take(i as int));
            assert(pv.take(i + 1).last() == probe@);
            proof {
                lemma_fits_prefix(old_model, pv, i + 1);
                if !blank && !present {
                    assert forall|k: int| 0 <= k < before.items.len() implies before.items[k].path
                        != probe@.path by {
                        assert(before.items[k] == self.items()[k]@);
                    }
                } else if present {
                    let k = choose|k: int|
                        0 <= k < self.items().len() && self.items()[k].path@ == probe.path@;
                    assert(before.items[k].path == probe@.path);
                }
            }
            if !blank && !present {
                self.next_item_id = self.next_item_id + 1;
                let id = self.next_item_id;
                let item = build_shelf_item(id, probe.path.clone(), probe.entry);
                self.shelf_items.push(item);
                assert(self.model().items =~= before.items.push(probe_item(id, probe@.path, probe@.entry)));
            }
            i = i + 1;
        }
        assert(pv.take(probes.len() as int) =~= pv);
        proof {
            let fm = self.model();
            lemma_add_all_covers(old_model, pv);
            assert forall|k: int|
                0 <= k < probes@.len() && !is_blank(#[trigger] probes@[k].path@) implies exists|j: int|
                0 <= j < self.items().len() && self.items()[j].path@ == probes@[k].path@ by {
                assert(pv[k].path == probes@[k].path@);
                let j = choose|j: int| 0 <= j < fm.items.len() && fm.items[j].path == pv[k].path;
                assert(fm.items[j] == self.items()[j]@);
            }
            if forall|k: int|
                0 <= k < probes@.len() ==> !accepts(old_model.items, #[trigger] probes@[k].path@) {
                assert forall|k: int| 0 <= k < pv.len() implies !accepts(old_model.items, #[trigger] pv[k].path) by {
                    assert(pv[k].path == probes@[k].path@);
                }
                lemma_add_all_rejected(old_model, pv);
                assert(self.items().len() == old_items.len());
                assert(self.items() =~= old_items);
            }
        }
        self.list_shelf_items()
    }

    /// Whether `add_shelf_paths(probes)` finds an id for every path that it
    /// puts on the shelf (ids are `u64`).
    pub fn can_add(&self, probes: &Vec<PathProbe>) -> (b: bool)
        requires
            self.wf(),
        ensures
            b == add_all_fits(self.model(), probe_views(probes@)),
    {
        let ghost model = self.model();
        let ghost pv = probe_views(probes@);
        let mut next: u64 = self.next_item_id;
        let mut accepted: Vec<String> = Vec::new();
        let mut i: usize = 0;
        assert(pv.take(0) =~= Seq::<PathProbeView>::empty());
        while i < probes.len()
            invariant
                i <= probes.len(),
                pv == probe_views(probes@),
                model == self.model(),
                self.wf(),
                add_all(model, pv.take(i as int)).next_id == next,
                add_all(model, pv.take(i as int)).items.len() == model.items.len() + accepted.len(),
                forall|k: int|
                    0 <= k < model.items.len() ==> #[trigger] add_all(model, pv.take(i as int)).items[k]
                        == model.items[k],
                forall|k: int|
                    0 <= k < accepted.len() ==> #[trigger] add_all(model, pv.take(i as int)).items[model.items.len()
                        + k].path == accepted@[k]@,
                add_all_fits(model, pv.take(i as int)),
            decreases probes.len() - i,
        {
            let ghost t = add_all(model, pv.take(i as int));
            let probe = &probes[i];
            assert(pv.take(i + 1).drop_last() =~= pv.take(i as int));
            assert(pv.take(i + 1).last() == probe@);
            proof {
                lemma_add_all_extends(model, pv.take(i as int));
            }
            let cs = chars_of(probe.path.as_str());
            let blank = is_blank_chars(&cs);
            let present = self.contains_path(&probe.path);
            let mut again = false;
            let mut k: usize = 0;
            while k < accepted.len()
                invariant
                    k <= accepted.len(),
                    again == exists|j: int| 0 <= j < k && accepted@[j]@ == probe.path@,
                decreases accepted.len() - k,
            {
                if accepted[k] == probe.path {
                    again = true;
                }
                k = k + 1;
            }
            proof {
                if !blank && !present && !again {
                    assert forall|j: int| 0 <= j < t.items.len() implies t.items[j].path
                        != probe@.path by {
                        if j < model.items.len() {
                            assert(model.items[j] == self.items()[j]@);
                        } else {
                            assert(t.items[model.items.len() + (j - model.items.len())].path
                                == accepted@[j - model.items.len()]@);
                        }
                    }
                } else if present {
                    let j = choose|j: int|
                        0 <= j < self.items().len() && self.items()[j].path@ == probe.path@;
                    assert(model.items[j] == self.items()[j]@);
                    assert(t.items[j].path == probe@.path);
                } else if again {
                    let j = choose|j: int| 0 <= j < accepted.len() && accepted@[j]@ == probe.path@;
                    assert(t.items[model.items.len() + j].path == probe@.path);
                }
            }
            if !blank && !present && !again {
                if next == u64::MAX {
                    proof {
                        if add_all_fits(model, pv) {
                            lemma_fits_prefix(model, pv, i + 1);
                        }
                    }
                    return false;
                }
                next = next + 1;
                let ghost before = accepted@;
                accepted.push(probe.path.clone());
                proof {
                    let t2 = add_all(model, pv.take(i + 1));
                    assert forall|j: int| 0 <= j < accepted.len() implies #[trigger] t2.items[model.items.len()
                        + j].path == accepted@[j]@ by {
                        if j < before.len() {
                            assert(t2.items[model.items.len() + j] == t.items[model.items.len() + j]);
                        }
                    }
                }
            }
            i = i + 1;
        }
        assert(pv.take(probes.len() as int) =~= pv);
        true
    }

    /// Takes the item with this id off the shelf. Returns the shelf.
    pub fn remove_shelf_item(&mut self, id: u64) -> (r: Vec<ShelfItem>)
        requires
            old(self).wf(),
        ensures
            final(self).wf(),
            final(self).next_id() == old(self).next_id(),
            final(self).items() == remove_spec(old(self).items(), id),
            forall|i: int| 0 <= i < final(self).items().len() ==> #[trigger] final(self).items()[i].id != id,
            r@ == final(self).items(),
    {
        let mut k: usize = 0;
        while k < self.shelf_items.len()
            invariant
                k <= self.shelf_items.len(),
                forall|j: int| 0 <= j < k ==> self.shelf_items@[j].id != id,
                self.wf(),
                self.next_id() == old(self).next_id(),
                self.items() == old(self).items(),
            decreases self.shelf_items.len() - k,
        {
            if self.shelf_items[k].id == id {
                let ghost before = self.shelf_items@;
                proof {
                    let c = choose|c: int| 0 <= c < before.len() && before[c].id == id;
                    if c != k {
                        if c < k {
                        } else {
                            assert(item_views(before)[k as int].id < item_views(before)[c].id);
                        }
                    }
                }
                self.shelf_items.remove(k);
                proof {
                    let m = self.model();
                    let bm = item_views(before);
                    assert forall|i: int| 0 <= i < m.items.len() implies #[trigger] m.items[i] == (
                    if i < k {
                        bm[i]
                    } else {
                        bm[i + 1]
                    }) by {}
                    assert forall|i: int| 0 <= i < self.items().len() implies #[trigger] self.items()[i].id
                        != id by {
                        assert(self.items()[i]@ == m.items[i]);
                        if i < k {
                            assert(bm[i].id < bm[k as int].id);
                        } else {
                            assert(bm[k as int].id < bm[i + 1].id);
                        }
                    }
                }
                return self.list_shelf_items();
            }
            k = k + 1;
        }
        self.list_shelf_items()
    }

    /// Takes every item off the shelf; ids handed out stay used. Returns the
    /// (empty) shelf.
    pub fn clear_shelf(&mut self) -> (r: Vec<ShelfItem>)
        requires
            old(self).wf(),
        ensures
            final(self).wf(),
            final(self).next_id() == old(self).next_id(),
            final(self).items().len() == 0,
            r@.len() == 0,
    {
        self.shelf_items.clear();
        self.list_shelf_items()
    }

    /// The item with this id, if it is on the shelf.
    pub fn find_item(&self, id: u64) -> (r: Option<ShelfItem>)
        ensures
            r is None <==> forall|i: int| 0 <= i < self.items().len() ==> self.items()[i].id != id,
            r matches Some(item) ==> exists|i: int|
                0 <= i < self.items().len() && self.items()[i].id == id && item == self.items()[i],
    {
        let mut k: usize = 0;
        while k < self.shelf_items.len()
            invariant
                k <= self.shelf_items.len(),
                forall|j: int| 0 <= j < k ==> self.shelf_items@[j].id != id,
            decreases self.shelf_items.len() - k,
        {
            if self.shelf_items[k].id == id {
                return Some(self.shelf_items[k].duplicate());
            }
            k = k + 1;
        }
        None
    }
}

impl Default for AppState {
    fn default() -> (s: AppState)
        ensures
            s.wf(),
            s.next_id() == 0,
            s.items().len() == 0,
    {
        AppState::new()
    }
}


/// Adding paths only appends: what was on the shelf stays, in place.
pub proof fn lemma_add_all_extends(s: ShelfView, ps: Seq<PathProbeView>)
    ensures
        add_all(s, ps).items.len() >= s.items.len(),
        forall|i: int| 0 <= i < s.items.len() ==> #[trigger] add_all(s, ps).items[i] == s.items[i],
    decreases ps.len(),
{
    if ps.len() > 0 {
        lemma_add_all_extends(s, ps.drop_last());
    }
}

/// After adding paths, every one of them that is not blank is on the shelf.
pub proof fn lemma_add_all_covers(s: ShelfView, ps: Seq<PathProbeView>)
    ensures
        forall|k: int|
            0 <= k < ps.len() && !is_blank(#[trigger] ps[k].path) ==> exists|i: int|
                0 <= i < add_all(s, ps).items.len() && add_all(s, ps).items[i].path == ps[k].path,
    decreases ps.len(),
{
    if ps.len() > 0 {
        let init = ps.drop_last();
        let before = add_all(s, init);
        let after = add_all(s, ps);
        lemma_add_all_covers(s, init);
        assert(after == add_one(before, ps.last()));
        assert forall|k: int| 0 <= k < ps.len() && !is_blank(#[trigger] ps[k].path) implies exists|i: int|
            0 <= i < after.items.len() && after.items[i].path == ps[k].path by {
            if k < ps.len() - 1 {
                assert(init[k] == ps[k]);
                let i = choose|i: int|
                    0 <= i < before.items.len() && before.items[i].path == init[k].path;
                assert(after.items[i] == before.items[i]);
            } else if accepts(before.items, ps.last().path) {
                assert(after.items[before.items.len() as int].path == ps[k].path);
            } else {
                let i = choose|i: int|
                    0 <= i < before.items.len() && before.items[i].path == ps.last().path;
                assert(after.items[i] == before.items[i]);
            }
        }
    }
}

/// Paths that the shelf would all turn away leave it as it is.
pub proof fn lemma_add_all_rejected(t: ShelfView, ps: Seq<PathProbeView>)
    requires
        forall|k: int| 0 <= k < ps.len() ==> !accepts(t.items, #[trigger] ps[k].path),
    ensures
        add_all(t, ps) == t,
    decreases ps.len(),
{
    if ps.len() > 0 {
        let init = ps.drop_last();
        assert forall|k: int| 0 <= k < init.len() implies !accepts(t.items, #[trigger] init[k].path) by {
            assert(init[k] == ps[k]);
        }
        lemma_add_all_rejected(t, init);
        assert(!accepts(t.items, ps[ps.len() - 1].path));
    }
}

/// Dropping the same paths twice gives the shelf of dropping them once:
/// duplicate paths are ignored.
pub proof fn lemma_add_idempotent(s: ShelfView, ps: Seq<PathProbeView>)
    ensures
        add_all(add_all(s, ps), ps) == add_all(s, ps),
{
    let t = add_all(s, ps);
    lemma_add_all_covers(s, ps);
    assert forall|k: int| 0 <= k < ps.len() implies !accepts(t.items, #[trigger] ps[k].path) by {
        if !is_blank(ps[k].path) {
            let i = choose|i: int| 0 <= i < t.items.len() && t.items[i].path == ps[k].path;
            assert(t.items[i].path == ps[k].path);
        }
    }
    lemma_add_all_rejected(t, ps);
}

/// Ids are never handed out twice: an item added after any sequence of
/// removals and clears has an id above every id handed out before, because
/// neither removing nor clearing lowers the last id handed out.
pub proof fn lemma_new_ids_are_fresh(s: ShelfView, p: PathProbeView)
    requires
        shelf_wf(s),
        s.next_id < u64::MAX,
        accepts(s.items, p.path),
    ensures
        add_one(s, p).items.last().id == s.next_id + 1,
        forall|i: int| 0 <= i < s.items.len() ==> #[trigger] s.items[i].id < add_one(s, p).items.last().id,
        shelf_wf(add_one(s, p)),
{
    let t = add_one(s, p);
    assert forall|i: int, j: int| 0 <= i < j < t.items.len() implies #[trigger] t.items[i].path
        != #[trigger] t.items[j].path by {
        if j == s.items.len() {
            assert(s.items[i].path != p.path);
        } else {
            assert(s.items[i].path != s.items[j].path);
        }
    }
}


/// Dropping `ps` never needs an id beyond `u64::MAX`: whenever a path is
/// put on the shelf, the last id handed out is below the largest `u64`.
pub open spec fn add_all_fits(s: ShelfView, ps: Seq<PathProbeView>) -> bool
    decreases ps.len(),
{
    if ps.len() == 0 {
        true
    } else {
        &&& add_all_fits(s, ps.drop_last())
        &&& accepts(add_all(s, ps.drop_last()).items, ps.last().path) ==> add_all(
            s,
            ps.drop_last(),
        ).next_id < u64::MAX
    }
}

proof fn lemma_fits_prefix(s: ShelfView, ps: Seq<PathProbeView>, k: int)
    requires
        add_all_fits(s, ps),
        0 <= k <= ps.len(),
    ensures
        add_all_fits(s, ps.take(k)),
    decreases ps.len(),
{
    if k == ps.len() {
        assert(ps.take(k) =~= ps);
    } else {
        assert(ps.drop_last().take(k) =~= ps.take(k));
        lemma_fits_prefix(s, ps.drop_last(), k);
    }
}

} // verus!
