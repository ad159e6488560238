//! A directory tree held in memory, and the walk that finds its content items.

use vstd::prelude::*;
use vstd::string::*;
use crate::text::{
    carries_extension,
    child_of,
    child_path,
    has_extension,
    is_within,
    lemma_child_is_under,
    lemma_under_is_transitive,
    lemma_within_is_no_shorter,
    plain_name,
    same_text,
};

verus! {

/// One entry of a directory listing: a file with its text, or a directory
/// with its own entries. The text of a file that is not markdown is never
/// looked at, so a loader may leave it empty.
#[derive(Debug, PartialEq, Eq)]
pub enum Entry {
    File { name: String, text: String },
    Dir { name: String, children: Vec<Entry> },
}

impl Entry {
    /// The name of the entry inside its directory.
    pub open spec fn label(self) -> Seq<char> {
        match self {
            Entry::File { name, .. } => name@,
            Entry::Dir { name, .. } => name@,
        }
    }

    /// The entries of a directory; none for a file.
    pub open spec fn entries(self) -> Seq<Entry> {
        match self {
            Entry::File { .. } => Seq::empty(),
            Entry::Dir { children, .. } => children@,
        }
    }

    /// The text of a file; nothing for a directory.
    pub open spec fn content(self) -> Seq<char> {
        match self {
            Entry::File { text, .. } => text@,
            Entry::Dir { .. } => Seq::empty(),
        }
    }

    /// The name of the entry inside its directory.
    pub fn name(&self) -> (name: &str)
        ensures
            name@ == self.label(),
    {
        match self {
            Entry::File { name, .. } => name.as_str(),
            Entry::Dir { name, .. } => name.as_str(),
        }
    }
}

/// One markdown source file found under the content root.
#[derive(Debug, Clone, PartialEq, Eq)]
pub struct Item {
    /// The directory that holds the file, relative to the content root.
    pub dir: String,
    /// The file name, extension included.
    pub name: String,
    /// The text of the file.
    pub text: String,
}

/// What an [`Item`] holds, as sequences of characters.
pub struct ItemView {
    pub dir: Seq<char>,
    pub name: Seq<char>,
    pub text: Seq<char>,
}

impl View for Item {
    type V = ItemView;

    open spec fn view(&self) -> ItemView {
        ItemView { dir: self.dir@, name: self.name@, text: self.text@ }
    }
}

impl ItemView {
    /// The path of the source file relative to the content root.
    pub open spec fn source(self) -> Seq<char> {
        child_path(self.dir, self.name)
    }
}

/// The views of a sequence of items.
pub open spec fn item_views(items: Seq<Item>) -> Seq<ItemView> {
    items.map_values(|item: Item| item@)
}

/// Whether a file name is that of a markdown source.
pub open spec fn is_markdown(name: Seq<char>) -> bool {
    has_extension(name, "md"@)
}

/// Some entry of the listing has the given name.
pub open spec fn has_entry(entries: Seq<Entry>, name: Seq<char>) -> bool {
    exists|i: int| 0 <= i < entries.len() && (#[trigger] entries[i]).label() == name
}

/// The markdown files under a listing, in the order of a depth-first walk.
/// `dir` is the path of the listed directory. Files that are not markdown
/// are passed over; directories are entered and never content themselves.
pub open spec fn walk(entries: Seq<Entry>, dir: Seq<char>) -> Seq<ItemView>
    decreases entries, 0nat,
{
    if entries.len() == 0 {
        Seq::empty()
    } else {
        walk(entries.drop_last(), dir) + walk_entry(entries.last(), dir)
    }
}

/// The markdown files that one entry of the directory `dir` contributes.
pub open spec fn walk_entry(entry: Entry, dir: Seq<char>) -> Seq<ItemView>
    decreases entry, 1nat,
{
    match entry {
        Entry::File { name, text } => if is_markdown(name@) {
            seq![ItemView { dir: dir, name: name@, text: text@ }]
        } else {
            Seq::empty()
        },
        Entry::Dir { name, children } => walk(children@, child_path(dir, name@)),
    }
}

/// No two entries of the listing have the same name, as in every listing
/// of a directory.
pub open spec fn distinct_names(entries: Seq<Entry>) -> bool {
    forall|i: int, j: int|
        0 <= i < j < entries.len() ==> (#[trigger] entries[i]).label() != (
        #[trigger] entries[j]).label()
}

/// Every entry of the listing has a plain name, as in every listing of a
/// directory.
pub open spec fn plain_names(entries: Seq<Entry>) -> bool {
    forall|i: int| 0 <= i < entries.len() ==> plain_name((#[trigger] entries[i]).label())
}

/// Some file of the listing has the given name.
pub open spec fn has_file(entries: Seq<Entry>, name: Seq<char>) -> bool {
    exists|i: int|
        0 <= i < entries.len() && (#[trigger] entries[i]) is File && entries[i].label() == name
}

/// Whether the listing holds an entry of the given name.
pub fn find_entry(entries: &Vec<Entry>, name: &str) -> (found: bool)
    ensures
        found == has_entry(entries@, name@),
{
    let mut i: usize = 0;
    while i < entries.len()
        invariant
            i <= entries.len(),
            forall|j: int| 0 <= j < i ==> (#[trigger] entries@[j]).label() != name@,
        decreases entries.len() - i,
    {
        if same_text(entries[i].name(), name) {
            return true;
        }
        i = i + 1;
    }
    false
}

/// Appends to `found` the markdown files under the listing, as [`walk`]
/// orders them.
pub fn collect_into(entries: &Vec<Entry>, dir: &str, found: &mut Vec<Item>)
    ensures
        item_views(final(found)@) == item_views(old(found)@) + walk(entries@, dir@),
    decreases entries,
{
    let mut i: usize = 0;
    while i < entries.len()
        invariant
            i <= entries.len(),
            item_views(found@) == item_views(old(found)@) + walk(entries@.take(i as int), dir@),
        decreases entries.len() - i,
    {
        let ghost before = item_views(found@);
        let ghost done = walk(entries@.take(i as int), dir@);
        let ghost step = walk_entry(entries@[i as int], dir@);
        proof {
            assert(entries@.take(i + 1).drop_last() == entries@.take(i as int));
            assert(entries@.take(i + 1).last() == entries@[i as int]);
            assert(walk(entries@.take(i + 1), dir@) == done + step);
        }
        match &entries[i] {
            Entry::File { name, text } => {
                if carries_extension(name.as_str(), "md") {
                    found.push(
                        Item { dir: String::from_str(dir), name: name.clone(), text: text.clone() },
                    );
                    assert(item_views(found@) == before.push(found@.last()@));
                    assert(step == seq![found@.last()@]);
                }
            },
            Entry::Dir { name, children } => {
                let inner = child_of(dir, name.as_str());
                collect_into(children, inner.as_str(), found);
            },
        }
        assert(item_views(found@) == before + step);
        assert(before + step == item_views(old(found)@) + (done + step));
        i = i + 1;
    }
    assert(entries@.take(entries.len() as int) == entries@);
}

/// The markdown files under the listing of the directory `dir`.
pub fn collect_items(entries: &Vec<Entry>, dir: &str) -> (items: Vec<Item>)
    ensures
        item_views(items@) == walk(entries@, dir@),
{
    let mut items: Vec<Item> = Vec::new();
    collect_into(entries, dir, &mut items);
    items
}

/// Every file that a walk finds is a markdown file.
pub proof fn lemma_walk_finds_markdown(entries: Seq<Entry>, dir: Seq<char>)
    ensures
        forall|n: int|
            0 <= n < walk(entries, dir).len() ==> is_markdown((#[trigger] walk(entries, dir)[n]).name),
    decreases entries, 0nat,
{
    if entries.len() > 0 {
        lemma_walk_finds_markdown(entries.drop_last(), dir);
        lemma_entry_holds_markdown(entries.last(), dir);
        let before = walk(entries.drop_last(), dir);
        let after = walk_entry(entries.last(), dir);
        assert forall|n: int| 0 <= n < walk(entries, dir).len() implies is_markdown(
            (#[trigger] walk(entries, dir)[n]).name,
        ) by {
            if n < before.len() {
                assert(walk(entries, dir)[n] == before[n]);
            } else {
                assert(walk(entries, dir)[n] == after[n - before.len()]);
            }
        }
    }
}

/// Every file that the walk of one entry finds is a markdown file.
pub proof fn lemma_entry_holds_markdown(entry: Entry, dir: Seq<char>)
    ensures
        forall|n: int|
            0 <= n < walk_entry(entry, dir).len() ==> is_markdown(
                (#[trigger] walk_entry(entry, dir)[n]).name,
            ),
    decreases entry, 1nat,
{
    let found = walk_entry(entry, dir);
    match entry {
        Entry::File { name, text } => {
            assert(forall|n: int| 0 <= n < found.len() ==> (#[trigger] found[n]).name == name@);
        },
        Entry::Dir { name, children } => {
            lemma_walk_finds_markdown(children@, child_path(dir, name@));
            assert(found == walk(children@, child_path(dir, name@)));
        },
    }
}

/// Every file that a walk finds stands in the walked directory or inside
/// it.
pub proof fn lemma_walk_stays_within(entries: Seq<Entry>, dir: Seq<char>)
    ensures
        forall|n: int|
            0 <= n < walk(entries, dir).len() ==> is_within((#[trigger] walk(entries, dir)[n]).dir, dir),
    decreases entries, 0nat,
{
    if entries.len() > 0 {
        lemma_walk_stays_within(entries.drop_last(), dir);
        lemma_entry_stays_within(entries.last(), dir);
        let before = walk(entries.drop_last(), dir);
        let after = walk_entry(entries.last(), dir);
        assert forall|n: int| 0 <= n < walk(entries, dir).len() implies is_within(
            (#[trigger] walk(entries, dir)[n]).dir,
            dir,
        ) by {
            if n < before.len() {
                assert(walk(entries, dir)[n] == before[n]);
            } else {
                assert(walk(entries, dir)[n] == after[n - before.len()]);
            }
        }
    }
}

/// Every file that the walk of one entry finds stands in the directory of
/// the entry or inside it.
pub proof fn lemma_entry_stays_within(entry: Entry, dir: Seq<char>)
    ensures
        forall|n: int|
            0 <= n < walk_entry(entry, dir).len() ==> is_within(
                (#[trigger] walk_entry(entry, dir)[n]).dir,
                dir,
            ),
    decreases entry, 1nat,
{
    let found = walk_entry(entry, dir);
    match entry {
        Entry::File { name, text } => {
            assert(forall|n: int| 0 <= n < found.len() ==> (#[trigger] found[n]).dir == dir);
        },
        Entry::Dir { name, children } => {
            let inner = child_path(dir, name@);
            lemma_walk_stays_within(children@, inner);
            assert(found == walk(children@, inner));
            lemma_child_is_under(dir, name@, dir);
            assert forall|n: int| 0 <= n < found.len() implies is_within(
                (#[trigger] found[n]).dir,
                dir,
            ) by {
                if found[n].dir != inner {
                    lemma_under_is_transitive(found[n].dir, inner, dir);
                }
            }
        },
    }
}

/// A file that a walk finds in the walked directory itself is a file of
/// the walked listing.
pub proof fn lemma_walk_top_files(entries: Seq<Entry>, dir: Seq<char>)
    ensures
        forall|n: int|
            0 <= n < walk(entries, dir).len() && (#[trigger] walk(entries, dir)[n]).dir == dir
                ==> has_file(entries, walk(entries, dir)[n].name),
    decreases entries.len(),
{
    if entries.len() > 0 {
        let init = entries.drop_last();
        let last = entries.last();
        lemma_walk_top_files(init, dir);
        let before = walk(init, dir);
        let after = walk_entry(last, dir);
        assert forall|n: int|
            0 <= n < walk(entries, dir).len() && (#[trigger] walk(entries, dir)[n]).dir
                == dir implies has_file(entries, walk(entries, dir)[n].name) by {
            if n < before.len() {
                assert(walk(entries, dir)[n] == before[n]);
                let i = choose|i: int|
                    0 <= i < init.len() && (#[trigger] init[i]) is File && init[i].label()
                        == before[n].name;
                assert(entries[i] is File && entries[i].label() == before[n].name);
            } else {
                let item = after[n - before.len()];
                assert(walk(entries, dir)[n] == item);
                match last {
                    Entry::File { name, text } => {
                        assert(item.name == name@);
                        assert(entries[entries.len() - 1] is File);
                    },
                    Entry::Dir { name, children } => {
                        let inner = child_path(dir, name@);
                        lemma_walk_stays_within(children@, inner);
                        assert(item == walk(children@, inner)[n - before.len()]);
                        lemma_within_is_no_shorter(item.dir, inner);
                    },
                }
            }
        }
    }
}

} // verus!
