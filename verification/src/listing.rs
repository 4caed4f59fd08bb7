//! The decision documents below a directory, picked from a walk of it.

use vstd::prelude::*;

verus! {

/// One entry of a walk through a directory: the entries come parents first,
/// each directory followed by what lies below it.
#[derive(Clone, Debug, PartialEq, Eq)]
pub struct WalkEntry {
    /// The path of the entry, as it is listed.
    pub path: String,
    /// The last part of the path, where it is readable text.
    pub file_name: Option<String>,
    /// How far below the root of the walk the entry lies; the root has 0.
    pub depth: usize,
    /// Whether the entry is a regular file.
    pub is_file: bool,
}

/// What a `WalkEntry` stands for.
pub struct WalkEntryModel {
    pub path: Seq<char>,
    pub file_name: Option<Seq<char>>,
    pub depth: nat,
    pub is_file: bool,
}

impl View for WalkEntry {
    type V = WalkEntryModel;

    open spec fn view(&self) -> WalkEntryModel {
        WalkEntryModel {
            path: self.path@,
            file_name: match self.file_name {
                Some(name) => Some(name@),
                None => None,
            },
            depth: self.depth as nat,
            is_file: self.is_file,
        }
    }
}

/// The entries of a walk as plain values.
pub open spec fn walk_of(entries: Seq<WalkEntry>) -> Seq<WalkEntryModel> {
    entries.map_values(|entry: WalkEntry| entry@)
}

/// A name is hidden where it is readable and begins with a dot.
pub open spec fn hidden(file_name: Option<Seq<char>>) -> bool {
    match file_name {
        Some(name) => name.len() > 0 && name[0] == '.',
        None => false,
    }
}

/// Entry `below` lies in the part of the walk that belongs to entry `above`:
/// it is that entry, or comes after it with every entry in between, and
/// itself, deeper than `above`.
pub open spec fn covers(walk: Seq<WalkEntryModel>, above: int, below: int) -> bool {
    &&& 0 <= above <= below < walk.len()
    &&& forall|k: int| above < k <= below ==> (#[trigger] walk[k]).depth > walk[above].depth
}

/// Entry `at` lies below a hidden entry.
pub open spec fn shadowed(walk: Seq<WalkEntryModel>, at: int) -> bool {
    exists|above: int| above < at && #[trigger] covers(walk, above, at) && hidden(walk[above].file_name)
}

/// Entry `at` is listed: a regular file that is not hidden and lies below
/// no hidden entry.
pub open spec fn listed(walk: Seq<WalkEntryModel>, at: int) -> bool {
    walk[at].is_file && !hidden(walk[at].file_name) && !shadowed(walk, at)
}

/// The paths of the listed entries among the first `count`, in the order of
/// the walk.
pub open spec fn listing_upto(walk: Seq<WalkEntryModel>, count: int) -> Seq<Seq<char>>
    decreases count,
{
    if count <= 0 {
        Seq::empty()
    } else if listed(walk, count - 1) {
        listing_upto(walk, count - 1).push(walk[count - 1].path)
    } else {
        listing_upto(walk, count - 1)
    }
}

/// The paths of the listed entries of a walk, in its order.
pub open spec fn listing(walk: Seq<WalkEntryModel>) -> Seq<Seq<char>> {
    listing_upto(walk, walk.len() as int)
}

/// Whether a file name is hidden.
pub fn is_hidden(file_name: Option<&str>) -> (is: bool)
    ensures
        is == hidden(
            match file_name {
                Some(name) => Some(name@),
                None => None,
            },
        ),
{
    match file_name {
        Some(name) => name.unicode_len() > 0 && name.get_char(0) == '.',
        None => false,
    }
}

/// Whether an entry of a walk is hidden by its own name.
pub fn entry_is_hidden(entry: &WalkEntry) -> (is: bool)
    ensures
        is == hidden(entry@.file_name),
{
    match &entry.file_name {
        Some(name) => is_hidden(Some(name.as_str())),
        None => is_hidden(None),
    }
}

/// The decision documents below a directory: the paths of the regular files
/// of a walk through it, without the hidden entries and what lies below
/// them, in the order of the walk. Empty where the root is no directory.
pub fn list_all_adr(root_is_dir: bool, entries: &Vec<WalkEntry>) -> (paths: Vec<String>)
    ensures
        paths.deep_view() == if root_is_dir {
            listing(walk_of(entries@))
        } else {
            Seq::<Seq<char>>::empty()
        },
{
    let mut paths: Vec<String> = Vec::new();
    if !root_is_dir {
        assert(paths.deep_view() =~= Seq::<Seq<char>>::empty());
        return paths;
    }
    let ghost walk = walk_of(entries@);
    let mut skip_below: Option<usize> = None;
    let ghost mut active: int = 0;
    let mut i: usize = 0;
    assert(paths.deep_view() =~= listing_upto(walk, 0));
    while i < entries.len()
        invariant
            i <= entries.len(),
            walk == walk_of(entries@),
            paths.deep_view() == listing_upto(walk, i as int),
            match skip_below {
                Some(depth) => {
                    &&& 0 <= active < i
                    &&& hidden(walk[active].file_name)
                    &&& walk[active].depth == depth
                    &&& !shadowed(walk, active)
                    &&& forall|k: int| active < k < i ==> (#[trigger] walk[k]).depth > depth
                },
                None => forall|above: int|
                    0 <= above < i && hidden(walk[above].file_name) ==> exists|k: int|
                        above < k < i && (#[trigger] walk[k]).depth <= walk[above].depth,
            },
        decreases entries.len() - i,
    {
        let entry = &entries[i];
        assert(walk[i as int] == entry@);
        let below_hidden = match skip_below {
            Some(depth) => entry.depth > depth,
            None => false,
        };
        if below_hidden {
            assert(shadowed(walk, i as int)) by {
                assert(covers(walk, active, i as int));
            }
        } else {
            assert(!shadowed(walk, i as int)) by {
                assert forall|above: int| above < i && covers(walk, above, i as int) implies !hidden(
                    walk[above].file_name,
                ) by {
                    if hidden(walk[above].file_name) {
                        match skip_below {
                            Some(depth) => {
                                if above < active {
                                    assert(covers(walk, above, active));
                                } else if above > active {
                                    assert(walk[above].depth > depth);
                                    assert(walk[i as int].depth > walk[above].depth);
                                } else {
                                    assert(walk[i as int].depth > walk[above].depth);
                                }
                            },
                            None => {
                                let k = choose|k: int|
                                    above < k < i && (#[trigger] walk[k]).depth
                                        <= walk[above].depth;
                                assert(walk[k].depth > walk[above].depth);
                            },
                        }
                    }
                }
            }
            if entry_is_hidden(entry) {
                skip_below = Some(entry.depth);
                proof {
                    active = i as int;
                }
            } else {
                proof {
                    assert forall|above: int|
                        0 <= above < i + 1 && hidden(walk[above].file_name) implies exists|k: int|
                        above < k < i + 1 && (#[trigger] walk[k]).depth <= walk[above].depth by {
                        if !exists|k: int|
                            above < k < i + 1 && (#[trigger] walk[k]).depth <= walk[above].depth {
                            assert(covers(walk, above, i as int));
                        }
                    }
                }
                skip_below = None;
                if entry.is_file {
                    let path = entry.path.clone();
                    paths.push(path);
                    assert(paths.deep_view() =~= listing_upto(walk, i as int).push(
                        walk[i as int].path,
                    ));
                }
            }
        }
        i += 1;
    }
    paths
}

/// A walk that meets no regular file lists nothing: so does the walk of an
/// empty directory, which meets the directory alone.
pub proof fn nothing_listed_without_files(walk: Seq<WalkEntryModel>, count: int)
    requires
        forall|i: int| 0 <= i < walk.len() ==> !(#[trigger] walk[i]).is_file,
        count <= walk.len(),
    ensures
        listing_upto(walk, count) == Seq::<Seq<char>>::empty(),
    decreases count,
{
    if count > 0 {
        nothing_listed_without_files(walk, count - 1);
    }
}

} // verus!
