//! The small read-only file tree the shell shows: directory listings, text
//! files and links, found by path or, when unambiguous, by base name.
use vstd::prelude::*;
use crate::commands::CommandResult;
use crate::commands::ResultView;
use crate::text::{
    basename, basename_chars, chars_of, copy_string, copy_strings, lowercase, one_line, owned, push_str,
    same_text, string_of, strings_view, to_lowercase, trim, trim_chars, trim_matches,
    trim_matches_chars, slice_chars,
};

verus! {

/// A directory or file entry: a path and its lines.
pub type LinesEntry = (String, Vec<String>);

/// A link entry: a path and the address it opens.
pub type LinkEntry = (String, String);

pub open spec fn lines_entries_view(e: Seq<LinesEntry>) -> Seq<(Seq<char>, Seq<Seq<char>>)> {
    e.map_values(|p: LinesEntry| (p.0@, strings_view(p.1@)))
}

pub open spec fn link_entries_view(e: Seq<LinkEntry>) -> Seq<(Seq<char>, Seq<char>)> {
    e.map_values(|p: LinkEntry| (p.0@, p.1@))
}

pub open spec fn keys_of<V>(e: Seq<(Seq<char>, V)>) -> Seq<Seq<char>> {
    e.map_values(|p: (Seq<char>, V)| p.0)
}

/// The value stored under `key`: that of the first entry with that key.
pub open spec fn lookup<V>(e: Seq<(Seq<char>, V)>, key: Seq<char>) -> Option<V>
    decreases e.len(),
{
    if e.len() == 0 {
        None
    } else if e[0].0 == key {
        Some(e[0].1)
    } else {
        lookup(e.drop_first(), key)
    }
}

/// The entries with `(key, value)` stored: replacing the value of an entry
/// with that key, or added at the end.
pub open spec fn stored<V>(e: Seq<(Seq<char>, V)>, key: Seq<char>, value: V) -> Seq<(Seq<char>, V)> {
    if keys_of(e).contains(key) {
        e.update(keys_of(e).index_of(key), (key, value))
    } else {
        e.push((key, value))
    }
}

/// The table that storing `pairs` one after another builds, so that a later
/// pair with a key replaces an earlier one.
pub open spec fn table_of<V>(pairs: Seq<(Seq<char>, V)>) -> Seq<(Seq<char>, V)>
    decreases pairs.len(),
{
    if pairs.len() == 0 {
        Seq::empty()
    } else {
        stored(table_of(pairs.drop_last()), pairs.last().0, pairs.last().1)
    }
}

/// The file tree: directory listings, files and links, each keyed by path.
pub struct FsView {
    pub directories: Seq<(Seq<char>, Seq<Seq<char>>)>,
    pub files: Seq<(Seq<char>, Seq<Seq<char>>)>,
    pub links: Seq<(Seq<char>, Seq<char>)>,
}

/// The key a user's path is looked up under: trimmed, without a leading
/// `./`, without leading or trailing `/`, lower-cased, and `.` when nothing
/// is left.
pub open spec fn normalized_target(value: Seq<char>) -> Seq<char> {
    let t = trim(value);
    let s = if t.len() >= 2 && t[0] == '.' && t[1] == '/' {
        t.skip(2)
    } else {
        t
    };
    key_or_root(lowercase(trim_matches(s, '/')))
}

/// A lower-cased path as a key: `.` (the root) when it is empty.
pub open spec fn key_or_root(lowered: Seq<char>) -> Seq<char> {
    if lowered.len() == 0 {
        "."@
    } else {
        lowered
    }
}

/// The keys among `keys` whose base name is `t`, in order.
pub open spec fn basename_matches(keys: Seq<Seq<char>>, t: Seq<char>) -> Seq<Seq<char>>
    decreases keys.len(),
{
    if keys.len() == 0 {
        Seq::empty()
    } else {
        let prev = basename_matches(keys.drop_last(), t);
        if basename(keys.last()) == t {
            prev.push(keys.last())
        } else {
            prev
        }
    }
}

/// The path an item named by the user resolves to: the normalized path
/// itself when a file or link has it, else the one file or link whose base
/// name it is (none when several are).
pub open spec fn item_target(fs: FsView, value: Seq<char>) -> Option<Seq<char>> {
    let t = normalized_target(value);
    if lookup(fs.files, t) is Some || lookup(fs.links, t) is Some {
        Some(t)
    } else {
        let m = basename_matches(keys_of(fs.files) + keys_of(fs.links), t);
        if m.len() == 1 {
            Some(m[0])
        } else {
            None
        }
    }
}

/// A file's lines or a link's address.
pub enum ItemView {
    File(Seq<Seq<char>>),
    Link(Seq<char>),
}

/// The item the user's path names.
pub open spec fn item_of(fs: FsView, value: Seq<char>) -> Option<ItemView> {
    match item_target(fs, value) {
        None => None,
        Some(t) => match lookup(fs.files, t) {
            Some(lines) => Some(ItemView::File(lines)),
            None => match lookup(fs.links, t) {
                Some(href) => Some(ItemView::Link(href)),
                None => None,
            },
        },
    }
}

/// What running an item gives: a file prints its lines, a link is opened
/// with a note naming it.
pub open spec fn item_result(item: ItemView, target: Seq<char>) -> ResultView {
    match item {
        ItemView::File(lines) => ResultView {
            lines,
            start_program: None,
            open_link: None,
            reset_terminal: false,
        },
        ItemView::Link(href) => ResultView {
            lines: seq!["opening "@ + basename(target) + "..."@],
            start_program: None,
            open_link: Some(href),
            reset_terminal: false,
        },
    }
}

/// A file or link of the tree, borrowed.
pub enum TerminalItem<'a> {
    File(&'a [String]),
    Link(&'a str),
}

/// A file or link of the tree, owned.
pub enum OwnedTerminalItem {
    File(Vec<String>),
    Link(String),
}

impl View for OwnedTerminalItem {
    type V = ItemView;

    open spec fn view(&self) -> ItemView {
        match self {
            OwnedTerminalItem::File(lines) => ItemView::File(strings_view(lines@)),
            OwnedTerminalItem::Link(href) => ItemView::Link(href@),
        }
    }
}

impl OwnedTerminalItem {
    /// Runs the item as the command `target`.
    pub fn execute(&self, target: &str) -> (r: CommandResult)
        ensures
            r@ == item_result(self@, target@),
    {
        match self {
            OwnedTerminalItem::File(file) => CommandResult::with_lines(copy_strings(file)),
            OwnedTerminalItem::Link(link) => {
                let t = chars_of(target);
                let base = basename_chars(&t);
                let mut msg: Vec<char> = Vec::new();
                push_str(&mut msg, "opening ");
                let mut i: usize = 0;
                while i < base.len()
                    invariant
                        i <= base@.len(),
                        msg@ == "opening "@ + base@.subrange(0, i as int),
                    decreases base@.len() - i,
                {
                    msg.push(base[i]);
                    i = i + 1;
                    assert(msg@ =~= "opening "@ + base@.subrange(0, i as int));
                }
                push_str(&mut msg, "...");
                assert(base@.subrange(0, base@.len() as int) =~= base@);
                let line = string_of(msg.as_slice());
                assert(line@ =~= "opening "@ + basename(target@) + "..."@);
                let lines = vec![line];
                assert(strings_view(lines@) =~= seq!["opening "@ + basename(target@) + "..."@]);
                CommandResult::with_open_link(copy_string(link), lines)
            },
        }
    }
}

pub struct TerminalFs {
    directories: Vec<LinesEntry>,
    files: Vec<LinesEntry>,
    links: Vec<LinkEntry>,
}

impl View for TerminalFs {
    type V = FsView;

    closed spec fn view(&self) -> FsView {
        FsView {
            directories: lines_entries_view(self.directories@),
            files: lines_entries_view(self.files@),
            links: link_entries_view(self.links@),
        }
    }
}

impl FsView {
    /// No path occurs twice in a table.
    pub open spec fn valid(&self) -> bool {
        &&& keys_of(self.directories).no_duplicates()
        &&& keys_of(self.files).no_duplicates()
        &&& keys_of(self.links).no_duplicates()
    }
}

/// The position of the entry with key `key`, if any.
fn find_entry<V>(entries: &Vec<(String, V)>, key: &str) -> (r: Option<usize>)
    ensures
        match r {
            Some(i) => i < entries@.len() && entries@[i as int].0@ == key@ && forall|j: int|
                0 <= j < i ==> (#[trigger] entries@[j]).0@ != key@,
            None => forall|j: int| 0 <= j < entries@.len() ==> (#[trigger] entries@[j]).0@ != key@,
        },
{
    let mut i: usize = 0;
    while i < entries.len()
        invariant
            i <= entries@.len(),
            forall|j: int| 0 <= j < i ==> (#[trigger] entries@[j]).0@ != key@,
        decreases entries@.len() - i,
    {
        if same_text(entries[i].0.as_str(), key) {
            return Some(i);
        }
        i = i + 1;
    }
    None
}

/// What `lookup` gives when the first entry with the key is at `i`.
pub proof fn lemma_lookup_at<V>(e: Seq<(Seq<char>, V)>, key: Seq<char>, i: int)
    requires
        0 <= i < e.len(),
        e[i].0 == key,
        forall|j: int| 0 <= j < i ==> (#[trigger] e[j]).0 != key,
    ensures
        lookup(e, key) == Some(e[i].1),
    decreases i,
{
    if i > 0 {
        let t = e.drop_first();
        assert forall|j: int| 0 <= j < i - 1 implies (#[trigger] t[j]).0 != key by {
            assert(t[j] == e[j + 1]);
        }
        lemma_lookup_at(t, key, i - 1);
    }
}

/// `lookup` finds nothing when no entry has the key.
pub proof fn lemma_lookup_none<V>(e: Seq<(Seq<char>, V)>, key: Seq<char>)
    requires
        forall|j: int| 0 <= j < e.len() ==> (#[trigger] e[j]).0 != key,
    ensures
        lookup(e, key) is None,
    decreases e.len(),
{
    if e.len() > 0 {
        let t = e.drop_first();
        assert forall|j: int| 0 <= j < t.len() implies (#[trigger] t[j]).0 != key by {
            assert(t[j] == e[j + 1]);
        }
        lemma_lookup_none(t, key);
    }
}

/// Stores `(key, value)` in a table of lines, replacing an entry with that
/// key.
fn store_lines(table: &mut Vec<LinesEntry>, key: String, value: Vec<String>)
    requires
        keys_of(lines_entries_view(old(table)@)).no_duplicates(),
    ensures
        lines_entries_view(final(table)@) == stored(
            lines_entries_view(old(table)@),
            key@,
            strings_view(value@),
        ),
        keys_of(lines_entries_view(final(table)@)).no_duplicates(),
{
    let ghost ev = lines_entries_view(table@);
    let ghost kv = keys_of(ev);
    match find_entry(table, key.as_str()) {
        Some(i) => {
            proof {
                assert(kv[i as int] == key@);
                assert(kv.contains(key@));
                assert(kv.index_of(key@) == i as int) by {
                    assert(kv[kv.index_of(key@)] == key@);
                }
            }
            table.set(i, (key, value));
            assert(lines_entries_view(table@) =~= stored(ev, key@, strings_view(value@)));
            assert(keys_of(lines_entries_view(table@)) =~= kv);
        },
        None => {
            proof {
                assert(!kv.contains(key@)) by {
                    if kv.contains(key@) {
                        let j = choose|j: int| 0 <= j < kv.len() && kv[j] == key@;
                        assert(table@[j].0@ == key@);
                    }
                }
            }
            table.push((key, value));
            assert(lines_entries_view(table@) =~= stored(ev, key@, strings_view(value@)));
            assert(keys_of(lines_entries_view(table@)) =~= kv.push(key@));
        },
    }
}

/// Stores `(key, value)` in a table of links, replacing an entry with that
/// key.
fn store_link(table: &mut Vec<LinkEntry>, key: String, value: String)
    requires
        keys_of(link_entries_view(old(table)@)).no_duplicates(),
    ensures
        link_entries_view(final(table)@) == stored(link_entries_view(old(table)@), key@, value@),
        keys_of(link_entries_view(final(table)@)).no_duplicates(),
{
    let ghost ev = link_entries_view(table@);
    let ghost kv = keys_of(ev);
    match find_entry(table, key.as_str()) {
        Some(i) => {
            proof {
                assert(kv[i as int] == key@);
                assert(kv.contains(key@));
                assert(kv.index_of(key@) == i as int) by {
                    assert(kv[kv.index_of(key@)] == key@);
                }
            }
            table.set(i, (key, value));
            assert(link_entries_view(table@) =~= stored(ev, key@, value@));
            assert(keys_of(link_entries_view(table@)) =~= kv);
        },
        None => {
            proof {
                assert(!kv.contains(key@)) by {
                    if kv.contains(key@) {
                        let j = choose|j: int| 0 <= j < kv.len() && kv[j] == key@;
                        assert(table@[j].0@ == key@);
                    }
                }
            }
            table.push((key, value));
            assert(link_entries_view(table@) =~= stored(ev, key@, value@));
            assert(keys_of(link_entries_view(table@)) =~= kv.push(key@));
        },
    }
}

/// The table that storing the pairs in order builds.
fn load_array_map(values: Vec<LinesEntry>) -> (r: Vec<LinesEntry>)
    ensures
        lines_entries_view(r@) == table_of(lines_entries_view(values@)),
        keys_of(lines_entries_view(r@)).no_duplicates(),
{
    let ghost pv = lines_entries_view(values@);
    let mut table: Vec<LinesEntry> = Vec::new();
    let mut i: usize = 0;
    assert(lines_entries_view(table@) =~= Seq::<(Seq<char>, Seq<Seq<char>>)>::empty());
    while i < values.len()
        invariant
            i <= values@.len(),
            pv == lines_entries_view(values@),
            lines_entries_view(table@) == table_of(pv.subrange(0, i as int)),
            keys_of(lines_entries_view(table@)).no_duplicates(),
        decreases values@.len() - i,
    {
        let key = copy_string(&values[i].0);
        let value = copy_strings(&values[i].1);
        store_lines(&mut table, key, value);
        proof {
            assert(pv.subrange(0, i + 1).drop_last() =~= pv.subrange(0, i as int));
        }
        i = i + 1;
    }
    assert(pv.subrange(0, values@.len() as int) =~= pv);
    table
}

/// The table of links that storing the pairs in order builds.
fn load_string_map(values: Vec<LinkEntry>) -> (r: Vec<LinkEntry>)
    ensures
        link_entries_view(r@) == table_of(link_entries_view(values@)),
        keys_of(link_entries_view(r@)).no_duplicates(),
{
    let ghost pv = link_entries_view(values@);
    let mut table: Vec<LinkEntry> = Vec::new();
    let mut i: usize = 0;
    assert(link_entries_view(table@) =~= Seq::<(Seq<char>, Seq<char>)>::empty());
    while i < values.len()
        invariant
            i <= values@.len(),
            pv == link_entries_view(values@),
            link_entries_view(table@) == table_of(pv.subrange(0, i as int)),
            keys_of(link_entries_view(table@)).no_duplicates(),
        decreases values@.len() - i,
    {
        let key = copy_string(&values[i].0);
        let value = copy_string(&values[i].1);
        store_link(&mut table, key, value);
        proof {
            assert(pv.subrange(0, i + 1).drop_last() =~= pv.subrange(0, i as int));
        }
        i = i + 1;
    }
    assert(pv.subrange(0, values@.len() as int) =~= pv);
    table
}

/// Builds the file tree from its listings, files and links; a later entry
/// with a path replaces an earlier one.
pub fn load_terminal_fs(
    directories: Vec<LinesEntry>,
    files: Vec<LinesEntry>,
    links: Vec<LinkEntry>,
) -> (fs: TerminalFs)
    ensures
        fs@ == (FsView {
            directories: table_of(lines_entries_view(directories@)),
            files: table_of(lines_entries_view(files@)),
            links: table_of(link_entries_view(links@)),
        }),
        fs@.valid(),
{
    TerminalFs {
        directories: load_array_map(directories),
        files: load_array_map(files),
        links: load_string_map(links),
    }
}

/// The commands the root listing always offers.
pub open spec fn root_commands() -> Seq<Seq<char>> {
    seq!["guess"@, "help"@, "snake"@]
}

/// The base names of `paths`.
pub open spec fn basenames(paths: Seq<Seq<char>>) -> Seq<Seq<char>> {
    paths.map_values(|p: Seq<char>| basename(p))
}

/// The root listing of a tree with files at `files` and links at `links`:
/// the commands worth trying first and the base names of the files and
/// links, sorted and without repeats.
pub fn root_entries(files: &Vec<String>, links: &Vec<String>) -> (r: Vec<String>)
    ensures
        strings_view(r@) == crate::commands::registry::sorted_set_of(
            root_commands() + basenames(strings_view(files@)) + basenames(strings_view(links@)),
        ),
{
    let mut all: Vec<String> = vec![owned("guess"), owned("help"), owned("snake")];
    proof {
        reveal_strlit("guess");
        reveal_strlit("help");
        reveal_strlit("snake");
    }
    assert(strings_view(all@) =~= root_commands());
    append_basenames(&mut all, files);
    append_basenames(&mut all, links);
    assert(strings_view(all@) =~= root_commands() + basenames(strings_view(files@)) + basenames(
        strings_view(links@),
    ));
    crate::commands::registry::sorted_unique(&all)
}

/// Appends the base names of `paths` to `out`.
fn append_basenames(out: &mut Vec<String>, paths: &Vec<String>)
    ensures
        strings_view(final(out)@) == strings_view(old(out)@) + basenames(strings_view(paths@)),
{
    let ghost start = strings_view(out@);
    let mut i: usize = 0;
    while i < paths.len()
        invariant
            i <= paths@.len(),
            strings_view(out@) == start + basenames(strings_view(paths@).subrange(0, i as int)),
        decreases paths@.len() - i,
    {
        let name = basename_chars(&chars_of(paths[i].as_str()));
        let ghost prev = out@;
        out.push(string_of(name.as_slice()));
        assert(strings_view(paths@).subrange(0, i + 1) =~= strings_view(paths@).subrange(0, i as int).push(
            paths@[i as int]@,
        ));
        assert(strings_view(out@) =~= strings_view(prev).push(basename(paths@[i as int]@)));
        assert(basenames(strings_view(paths@).subrange(0, i + 1)) =~= basenames(
            strings_view(paths@).subrange(0, i as int),
        ).push(basename(paths@[i as int]@)));
        i = i + 1;
    }
    assert(strings_view(paths@).subrange(0, paths@.len() as int) =~= strings_view(paths@));
}

/// The key a user's path is looked up under.
pub fn normalize_target(value: &str) -> (r: String)
    ensures
        r@ == normalized_target(value@),
{
    let chars = chars_of(value);
    let t = trim_chars(&chars);
    let s = if t.len() >= 2 && t[0] == '.' && t[1] == '/' {
        let rest = slice_chars(&t, 2, t.len());
        assert(rest@ =~= t@.skip(2));
        rest
    } else {
        t
    };
    let m = trim_matches_chars(&s, '/');
    let m_str = string_of(m.as_slice());
    key_from_lowered(to_lowercase(m_str.as_str()))
}

/// The key for a path that is already trimmed and lower-cased: the path
/// itself, or `.` when it is empty.
pub fn key_from_lowered(lowered: String) -> (r: String)
    ensures
        r@ == key_or_root(lowered@),
{
    if lowered.as_str().unicode_len() == 0 {
        crate::text::owned(".")
    } else {
        lowered
    }
}

/// Collects the keys whose base name is `t`, after `found`.
fn collect_basename_matches<V>(entries: &Vec<(String, V)>, t: &Vec<char>, found: &mut Vec<String>)
    ensures
        strings_view(final(found)@) == strings_view(old(found)@) + basename_matches(
            entries@.map_values(|p: (String, V)| p.0@),
            t@,
        ),
{
    let ghost keys = entries@.map_values(|p: (String, V)| p.0@);
    let ghost start = strings_view(found@);
    let mut i: usize = 0;
    while i < entries.len()
        invariant
            i <= entries@.len(),
            keys == entries@.map_values(|p: (String, V)| p.0@),
            strings_view(found@) == start + basename_matches(keys.subrange(0, i as int), t@),
        decreases entries@.len() - i,
    {
        let k = chars_of(entries[i].0.as_str());
        let b = basename_chars(&k);
        let ghost prev = found@;
        proof {
            assert(keys.subrange(0, i + 1).drop_last() =~= keys.subrange(0, i as int));
            assert(keys.subrange(0, i + 1).last() == k@);
        }
        if same_chars(&b, t) {
            found.push(copy_string(&entries[i].0));
            assert(strings_view(found@) =~= strings_view(prev).push(k@));
        }
        i = i + 1;
    }
    assert(keys.subrange(0, entries@.len() as int) =~= keys);
}

/// Two character sequences are equal.
pub fn same_chars(a: &Vec<char>, b: &Vec<char>) -> (r: bool)
    ensures
        r == (a@ == b@),
{
    if a.len() != b.len() {
        return false;
    }
    let mut i: usize = 0;
    while i < a.len()
        invariant
            a@.len() == b@.len(),
            i <= a@.len(),
            forall|j: int| 0 <= j < i ==> a@[j] == b@[j],
        decreases a@.len() - i,
    {
        if a[i] != b[i] {
            return false;
        }
        i = i + 1;
    }
    assert(a@ =~= b@);
    true
}

pub proof fn lemma_basename_matches_append(a: Seq<Seq<char>>, b: Seq<Seq<char>>, t: Seq<char>)
    ensures
        basename_matches(a + b, t) == basename_matches(a, t) + basename_matches(b, t),
    decreases b.len(),
{
    if b.len() == 0 {
        assert(a + b =~= a);
        assert(basename_matches(a, t) + Seq::<Seq<char>>::empty() =~= basename_matches(a, t));
    } else {
        assert((a + b).drop_last() =~= a + b.drop_last());
        lemma_basename_matches_append(a, b.drop_last(), t);
        if basename(b.last()) == t {
            assert(basename_matches(a, t) + basename_matches(b.drop_last(), t).push(b.last())
                =~= (basename_matches(a, t) + basename_matches(b.drop_last(), t)).push(b.last()));
        }
    }
}

impl TerminalFs {
    pub open spec fn valid(&self) -> bool {
        self@.valid()
    }

    /// The listing of the directory the user's path names.
    pub fn resolve_directory(&self, value: &str) -> (r: Option<&Vec<String>>)
        ensures
            match r {
                Some(v) => lookup(self@.directories, normalized_target(value@)) == Some(
                    strings_view(v@),
                ),
                None => lookup(self@.directories, normalized_target(value@)) is None,
            },
    {
        let target = normalize_target(value);
        match find_entry(&self.directories, target.as_str()) {
            Some(i) => {
                proof {
                    let e = lines_entries_view(self.directories@);
                    assert forall|j: int| 0 <= j < i implies (#[trigger] e[j]).0 != target@ by {
                        assert(e[j].0 == self.directories@[j].0@);
                    }
                    lemma_lookup_at(e, target@, i as int);
                }
                Some(&self.directories[i].1)
            },
            None => {
                proof {
                    let e = lines_entries_view(self.directories@);
                    assert forall|j: int| 0 <= j < e.len() implies (#[trigger] e[j]).0 != target@ by {
                        assert(e[j].0 == self.directories@[j].0@);
                    }
                    lemma_lookup_none(e, target@);
                }
                None
            },
        }
    }

    /// The entries of the root listing, or none when there is no root.
    pub fn root_items(&self) -> (r: Vec<String>)
        ensures
            strings_view(r@) == match lookup(self@.directories, "."@) {
                Some(items) => items,
                None => Seq::empty(),
            },
    {
        match find_entry(&self.directories, ".") {
            Some(i) => {
                proof {
                    let e = lines_entries_view(self.directories@);
                    assert forall|j: int| 0 <= j < i implies (#[trigger] e[j]).0 != "."@ by {
                        assert(e[j].0 == self.directories@[j].0@);
                    }
                    lemma_lookup_at(e, "."@, i as int);
                }
                copy_strings(&self.directories[i].1)
            },
            None => {
                proof {
                    let e = lines_entries_view(self.directories@);
                    assert forall|j: int| 0 <= j < e.len() implies (#[trigger] e[j]).0 != "."@ by {
                        assert(e[j].0 == self.directories@[j].0@);
                    }
                    lemma_lookup_none(e, "."@);
                }
                let r: Vec<String> = Vec::new();
                assert(strings_view(r@) =~= Seq::<Seq<char>>::empty());
                r
            },
        }
    }

    /// The address of the link stored under exactly `path`.
    pub fn link(&self, path: &str) -> (r: Option<&String>)
        ensures
            match r {
                Some(h) => lookup(self@.links, path@) == Some(h@),
                None => lookup(self@.links, path@) is None,
            },
    {
        match find_entry(&self.links, path) {
            Some(i) => {
                proof {
                    let e = link_entries_view(self.links@);
                    assert forall|j: int| 0 <= j < i implies (#[trigger] e[j]).0 != path@ by {
                        assert(e[j].0 == self.links@[j].0@);
                    }
                    lemma_lookup_at(e, path@, i as int);
                }
                Some(&self.links[i].1)
            },
            None => {
                proof {
                    let e = link_entries_view(self.links@);
                    assert forall|j: int| 0 <= j < e.len() implies (#[trigger] e[j]).0 != path@ by {
                        assert(e[j].0 == self.links@[j].0@);
                    }
                    lemma_lookup_none(e, path@);
                }
                None
            },
        }
    }

    /// The links of the tree.
    pub fn links(&self) -> (r: &Vec<LinkEntry>)
        ensures
            link_entries_view(r@) == self@.links,
    {
        &self.links
    }

    /// The path an item named by the user resolves to.
    fn resolve_item_target(&self, value: &str) -> (r: Option<String>)
        ensures
            match r {
                Some(t) => item_target(self@, value@) == Some(t@),
                None => item_target(self@, value@) is None,
            },
    {
        let target = normalize_target(value);
        let in_files = find_entry(&self.files, target.as_str());
        let in_links = find_entry(&self.links, target.as_str());
        proof {
            let fe = lines_entries_view(self.files@);
            let le = link_entries_view(self.links@);
            match in_files {
                Some(i) => {
                    assert forall|j: int| 0 <= j < i implies (#[trigger] fe[j]).0 != target@ by {
                        assert(fe[j].0 == self.files@[j].0@);
                    }
                    lemma_lookup_at(fe, target@, i as int);
                },
                None => {
                    assert forall|j: int| 0 <= j < fe.len() implies (#[trigger] fe[j]).0 != target@ by {
                        assert(fe[j].0 == self.files@[j].0@);
                    }
                    lemma_lookup_none(fe, target@);
                },
            }
            match in_links {
                Some(i) => {
                    assert forall|j: int| 0 <= j < i implies (#[trigger] le[j]).0 != target@ by {
                        assert(le[j].0 == self.links@[j].0@);
                    }
                    lemma_lookup_at(le, target@, i as int);
                },
                None => {
                    assert forall|j: int| 0 <= j < le.len() implies (#[trigger] le[j]).0 != target@ by {
                        assert(le[j].0 == self.links@[j].0@);
                    }
                    lemma_lookup_none(le, target@);
                },
            }
        }
        if in_files.is_some() || in_links.is_some() {
            return Some(target);
        }
        let t = chars_of(target.as_str());
        let mut found: Vec<String> = Vec::new();
        collect_basename_matches(&self.files, &t, &mut found);
        collect_basename_matches(&self.links, &t, &mut found);
        proof {
            let fk = self.files@.map_values(|p: LinesEntry| p.0@);
            let lk = self.links@.map_values(|p: LinkEntry| p.0@);
            assert(fk =~= keys_of(self@.files));
            assert(lk =~= keys_of(self@.links));
            lemma_basename_matches_append(fk, lk, t@);
            assert(strings_view(Seq::<String>::empty()) =~= Seq::<Seq<char>>::empty());
            assert(strings_view(found@) =~= basename_matches(fk + lk, t@));
        }
        if found.len() == 1 {
            Some(copy_string(&found[0]))
        } else {
            None
        }
    }

    /// The file or link the user's path names.
    pub fn resolve_item(&self, value: &str) -> (r: Option<TerminalItem<'_>>)
        ensures
            match r {
                Some(TerminalItem::File(lines)) => item_of(self@, value@) == Some(
                    ItemView::File(strings_view(lines@)),
                ),
                Some(TerminalItem::Link(href)) => item_of(self@, value@) == Some(
                    ItemView::Link(href@),
                ),
                None => item_of(self@, value@) is None,
            },
    {
        let resolved = match self.resolve_item_target(value) {
            Some(t) => t,
            None => return None,
        };
        let fe = find_entry(&self.files, resolved.as_str());
        let le = find_entry(&self.links, resolved.as_str());
        proof {
            let fv = lines_entries_view(self.files@);
            let lv = link_entries_view(self.links@);
            match fe {
                Some(i) => {
                    assert forall|j: int| 0 <= j < i implies (#[trigger] fv[j]).0 != resolved@ by {
                        assert(fv[j].0 == self.files@[j].0@);
                    }
                    lemma_lookup_at(fv, resolved@, i as int);
                },
                None => {
                    assert forall|j: int| 0 <= j < fv.len() implies (#[trigger] fv[j]).0 != resolved@ by {
                        assert(fv[j].0 == self.files@[j].0@);
                    }
                    lemma_lookup_none(fv, resolved@);
                },
            }
            match le {
                Some(i) => {
                    assert forall|j: int| 0 <= j < i implies (#[trigger] lv[j]).0 != resolved@ by {
                        assert(lv[j].0 == self.links@[j].0@);
                    }
                    lemma_lookup_at(lv, resolved@, i as int);
                },
                None => {
                    assert forall|j: int| 0 <= j < lv.len() implies (#[trigger] lv[j]).0 != resolved@ by {
                        assert(lv[j].0 == self.links@[j].0@);
                    }
                    lemma_lookup_none(lv, resolved@);
                },
            }
        }
        match fe {
            Some(i) => Some(TerminalItem::File(self.files[i].1.as_slice())),
            None => match le {
                Some(i) => Some(TerminalItem::Link(self.links[i].1.as_str())),
                None => None,
            },
        }
    }

    /// The file or link the user's path names, copied.
    pub fn resolve_owned_item(&self, value: &str) -> (r: Option<OwnedTerminalItem>)
        ensures
            match r {
                Some(item) => item_of(self@, value@) == Some(item@),
                None => item_of(self@, value@) is None,
            },
    {
        match self.resolve_item(value) {
            Some(TerminalItem::File(file)) => {
                let mut v: Vec<String> = Vec::new();
                let mut i: usize = 0;
                while i < file.len()
                    invariant
                        i <= file@.len(),
                        v@.len() == i,
                        forall|j: int| 0 <= j < i ==> (#[trigger] v@[j])@ == file@[j]@,
                    decreases file@.len() - i,
                {
                    v.push(copy_string(&file[i]));
                    i = i + 1;
                }
                assert(strings_view(v@) =~= strings_view(file@));
                Some(OwnedTerminalItem::File(v))
            },
            Some(TerminalItem::Link(link)) => Some(OwnedTerminalItem::Link(crate::text::owned(link))),
            None => None,
        }
    }
}

} // verus!
