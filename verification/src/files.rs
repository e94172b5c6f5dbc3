//! Entries of a directory listing and the order in which they are shown:
//! directories first, then by name.

use vstd::prelude::*;
use vstd::utf8::encode_utf8;

verus! {

/// An entry of a directory listing, as plain values.
pub struct FileEntry {
    pub name: Seq<char>,
    pub path: Seq<char>,
    pub is_directory: bool,
    pub size: u64,
}

/// An entry of a directory listing.
#[derive(Debug)]
pub struct FileInfo {
    name: String,
    path: String,
    is_directory: bool,
    size: u64,
}

impl View for FileInfo {
    type V = FileEntry;

    closed spec fn view(&self) -> FileEntry {
        FileEntry {
            name: self.name@,
            path: self.path@,
            is_directory: self.is_directory,
            size: self.size,
        }
    }
}

/// Whether `a` comes before `b` when bytes are compared one by one from
/// the front and a proper prefix comes first.
pub open spec fn bytes_before(a: Seq<u8>, b: Seq<u8>) -> bool
    decreases a.len(),
{
    if b.len() == 0 {
        false
    } else if a.len() == 0 {
        true
    } else if a[0] != b[0] {
        a[0] < b[0]
    } else {
        bytes_before(a.skip(1), b.skip(1))
    }
}

/// Whether the name `a` sorts before the name `b`: by the bytes of their
/// UTF-8 encodings.
pub open spec fn name_before(a: Seq<char>, b: Seq<char>) -> bool {
    bytes_before(encode_utf8(a), encode_utf8(b))
}

/// Whether `a` is listed before `b`: a directory before anything that is
/// not one, and among the like the lesser name first.
pub open spec fn listed_before(a: FileEntry, b: FileEntry) -> bool {
    if a.is_directory != b.is_directory {
        a.is_directory
    } else {
        name_before(a.name, b.name)
    }
}

/// Whether no entry of `entries` stands behind one that it is listed
/// before.
pub open spec fn in_listing_order(entries: Seq<FileEntry>) -> bool {
    forall|i: int, j: int|
        0 <= i < j < entries.len() ==> !listed_before(#[trigger] entries[j], #[trigger] entries[i])
}

/// The place at which `entry` joins entries that are in listing order:
/// before the first that it is listed before, behind all others.
pub open spec fn place_for(entries: Seq<FileEntry>, entry: FileEntry) -> int
    decreases entries.len(),
{
    if entries.len() == 0 || listed_before(entry, entries[0]) {
        0
    } else {
        1 + place_for(entries.skip(1), entry)
    }
}

/// The entries in listing order. Entries of which neither is listed before
/// the other keep the order in which they came.
pub open spec fn sorted_listing(entries: Seq<FileEntry>) -> Seq<FileEntry>
    decreases entries.len(),
{
    if entries.len() == 0 {
        Seq::empty()
    } else {
        let earlier = sorted_listing(entries.drop_last());
        earlier.insert(place_for(earlier, entries.last()), entries.last())
    }
}

/// The plain values of a list of entries.
pub open spec fn entries_of(files: Seq<FileInfo>) -> Seq<FileEntry> {
    Seq::new(files.len(), |i: int| files[i]@)
}

/// Sequences that agree on their first `n` bytes compare as what follows.
pub proof fn lemma_bytes_before_skip(a: Seq<u8>, b: Seq<u8>, n: int)
    requires
        0 <= n <= a.len(),
        n <= b.len(),
        forall|i: int| 0 <= i < n ==> a[i] == b[i],
    ensures
        bytes_before(a, b) == bytes_before(a.skip(n), b.skip(n)),
    decreases n,
{
    if n == 0 {
        assert(a.skip(0) =~= a);
        assert(b.skip(0) =~= b);
    } else {
        lemma_bytes_before_skip(a.skip(1), b.skip(1), n - 1);
        assert(a.skip(1).skip(n - 1) =~= a.skip(n));
        assert(b.skip(1).skip(n - 1) =~= b.skip(n));
    }
}

/// No sequence of bytes comes before itself.
pub proof fn lemma_bytes_before_irreflexive(a: Seq<u8>)
    ensures
        !bytes_before(a, a),
    decreases a.len(),
{
    if a.len() > 0 {
        lemma_bytes_before_irreflexive(a.skip(1));
    }
}

/// Coming before is transitive.
pub proof fn lemma_bytes_before_transitive(a: Seq<u8>, b: Seq<u8>, c: Seq<u8>)
    requires
        bytes_before(a, b),
        bytes_before(b, c),
    ensures
        bytes_before(a, c),
    decreases a.len(),
{
    if a.len() > 0 && a[0] == b[0] && b[0] == c[0] {
        lemma_bytes_before_transitive(a.skip(1), b.skip(1), c.skip(1));
    }
}

/// Being listed before is a strict order: nothing is listed before itself,
/// and what is listed before an entry is listed before all that the entry
/// is listed before.
pub proof fn lemma_listed_before_strict(a: FileEntry, b: FileEntry, c: FileEntry)
    ensures
        !listed_before(a, a),
        listed_before(a, b) && listed_before(b, c) ==> listed_before(a, c),
        listed_before(a, b) ==> !listed_before(b, a),
{
    lemma_bytes_before_irreflexive(encode_utf8(a.name));
    if listed_before(a, b) && listed_before(b, c) {
        if a.is_directory == b.is_directory && b.is_directory == c.is_directory {
            lemma_bytes_before_transitive(
                encode_utf8(a.name),
                encode_utf8(b.name),
                encode_utf8(c.name),
            );
        }
    }
    if listed_before(a, b) && listed_before(b, a) {
        lemma_bytes_before_transitive(
            encode_utf8(a.name),
            encode_utf8(b.name),
            encode_utf8(a.name),
        );
    }
}

/// The place for an entry lies within the list, behind entries that the
/// entry is not listed before and in front of one that it is.
pub proof fn lemma_place_for(entries: Seq<FileEntry>, entry: FileEntry)
    ensures
        0 <= place_for(entries, entry) <= entries.len(),
        forall|k: int|
            0 <= k < place_for(entries, entry) ==> !listed_before(entry, #[trigger] entries[k]),
        place_for(entries, entry) < entries.len() ==> listed_before(
            entry,
            entries[place_for(entries, entry)],
        ),
    decreases entries.len(),
{
    if entries.len() == 0 || listed_before(entry, entries[0]) {
    } else {
        let rest = entries.skip(1);
        lemma_place_for(rest, entry);
        let p = place_for(rest, entry);
        assert forall|k: int| 0 <= k < p + 1 implies !listed_before(
            entry,
            #[trigger] entries[k],
        ) by {
            if k > 0 {
                assert(entries[k] == rest[k - 1]);
            }
        }
        if p < rest.len() {
            assert(entries[p + 1] == rest[p]);
        }
    }
}

/// The first entry that `entry` is listed before marks its place.
pub proof fn lemma_place_found(entries: Seq<FileEntry>, entry: FileEntry, p: int)
    requires
        0 <= p <= entries.len(),
        forall|k: int| 0 <= k < p ==> !listed_before(entry, #[trigger] entries[k]),
        p < entries.len() ==> listed_before(entry, entries[p]),
    ensures
        place_for(entries, entry) == p,
    decreases p,
{
    if p > 0 {
        assert(!listed_before(entry, entries[0]));
        let rest = entries.skip(1);
        assert forall|k: int| 0 <= k < p - 1 implies !listed_before(entry, #[trigger] rest[k]) by {
            assert(rest[k] == entries[k + 1]);
        }
        lemma_place_found(rest, entry, p - 1);
    }
}

/// An entry that joins entries in listing order at its place leaves them in
/// listing order, and adds itself and nothing else.
pub proof fn lemma_insert_in_order(entries: Seq<FileEntry>, entry: FileEntry)
    requires
        in_listing_order(entries),
    ensures
        in_listing_order(entries.insert(place_for(entries, entry), entry)),
        entries.insert(place_for(entries, entry), entry).to_multiset()
            == entries.to_multiset().insert(entry),
{
    lemma_place_for(entries, entry);
    let p = place_for(entries, entry);
    let joined = entries.insert(p, entry);
    assert forall|i: int, j: int| 0 <= i < j < joined.len() implies !listed_before(
        #[trigger] joined[j],
        #[trigger] joined[i],
    ) by {
        if j == p {
            assert(joined[i] == entries[i]);
        } else if i == p {
            assert(joined[j] == entries[j - 1]);
            if j - 1 == p {
                lemma_listed_before_strict(entry, entries[p], entry);
            } else {
                assert(!listed_before(entries[j - 1], entries[p]));
                lemma_listed_before_strict(entries[j - 1], entry, entries[p]);
            }
        } else {
            let i0 = if i < p { i } else { i - 1 };
            let j0 = if j < p { j } else { j - 1 };
            assert(joined[i] == entries[i0]);
            assert(joined[j] == entries[j0]);
        }
    }
    assert(joined.remove(p) =~= entries);
    vstd::seq_lib::to_multiset_remove(joined, p);
    joined.to_multiset_ensures();
    assert(joined.contains(entry)) by {
        assert(joined[p] == entry);
    }
    assert(joined.to_multiset() =~= entries.to_multiset().insert(entry));
}

/// The sorted listing is in listing order and holds the same entries, each
/// as often as before.
pub proof fn lemma_sorted_listing(entries: Seq<FileEntry>)
    ensures
        in_listing_order(sorted_listing(entries)),
        sorted_listing(entries).to_multiset() == entries.to_multiset(),
        sorted_listing(entries).len() == entries.len(),
    decreases entries.len(),
{
    if entries.len() == 0 {
        assert(entries =~= Seq::<FileEntry>::empty());
    } else {
        let earlier = entries.drop_last();
        lemma_sorted_listing(earlier);
        lemma_insert_in_order(sorted_listing(earlier), entries.last());
        lemma_place_for(sorted_listing(earlier), entries.last());
        vstd::seq_lib::to_multiset_build(earlier, entries.last());
        assert(earlier.push(entries.last()) =~= entries);
    }
}

/// Whether the name `a` sorts before the name `b`.
pub fn name_sorts_before(a: &str, b: &str) -> (before: bool)
    ensures
        before == name_before(a@, b@),
{
    let x = a.as_bytes();
    let y = b.as_bytes();
    let mut i: usize = 0;
    while i < x.len() && i < y.len()
        invariant
            i <= x@.len(),
            i <= y@.len(),
            x@ == encode_utf8(a@),
            y@ == encode_utf8(b@),
            forall|k: int| 0 <= k < i ==> x@[k] == y@[k],
        decreases x.len() - i,
    {
        if x[i] != y[i] {
            proof {
                lemma_bytes_before_skip(x@, y@, i as int);
            }
            return x[i] < y[i];
        }
        i += 1;
    }
    proof {
        lemma_bytes_before_skip(x@, y@, i as int);
    }
    i < y.len()
}

impl FileInfo {
    /// An entry with the given name, path, kind and size in bytes.
    pub fn new(name: String, path: String, is_directory: bool, size: u64) -> (info: Self)
        ensures
            info@ == (FileEntry { name: name@, path: path@, is_directory, size }),
    {
        FileInfo { name, path, is_directory, size }
    }

    /// The last component of the path.
    pub fn name(&self) -> (r: &str)
        ensures
            r@ == self@.name,
    {
        self.name.as_str()
    }

    /// The path of the entry.
    pub fn path(&self) -> (r: &str)
        ensures
            r@ == self@.path,
    {
        self.path.as_str()
    }

    /// Whether the entry is a directory.
    pub fn is_directory(&self) -> (r: bool)
        ensures
            r == self@.is_directory,
    {
        self.is_directory
    }

    /// The size of the entry in bytes.
    pub fn size(&self) -> (r: u64)
        ensures
            r == self@.size,
    {
        self.size
    }

    /// Whether this entry is listed before `other`.
    pub fn listed_before(&self, other: &FileInfo) -> (before: bool)
        ensures
            before == listed_before(self@, other@),
    {
        if self.is_directory != other.is_directory {
            self.is_directory
        } else {
            name_sorts_before(self.name.as_str(), other.name.as_str())
        }
    }
}

/// Puts the entries of a directory in the order in which they are listed:
/// directories first, then by name. Entries that the order does not tell
/// apart stay in the order in which they came.
pub fn sort_listing(files: Vec<FileInfo>) -> (sorted: Vec<FileInfo>)
    ensures
        entries_of(sorted@) == sorted_listing(entries_of(files@)),
        in_listing_order(entries_of(sorted@)),
        entries_of(sorted@).to_multiset() == entries_of(files@).to_multiset(),
        sorted@.len() == files@.len(),
{
    let ghost given = files@;
    let ghost wanted = entries_of(given);
    let mut rest = files;
    let mut reversed: Vec<FileInfo> = Vec::new();
    while rest.len() > 0
        invariant
            rest@.len() + reversed@.len() == given.len(),
            rest@ =~= given.take(rest@.len() as int),
            forall|k: int|
                0 <= k < reversed@.len() ==> #[trigger] reversed@[k] == given[given.len() - 1
                    - k],
        decreases rest.len(),
    {
        let item = rest.pop().unwrap();
        reversed.push(item);
    }
    let mut sorted: Vec<FileInfo> = Vec::new();
    let ghost mut done: int = 0;
    proof {
        assert(wanted.take(0) =~= Seq::<FileEntry>::empty());
        assert(entries_of(sorted@) =~= sorted_listing(wanted.take(0)));
    }
    while reversed.len() > 0
        invariant
            wanted == entries_of(given),
            0 <= done <= given.len(),
            reversed@.len() == given.len() - done,
            forall|k: int|
                0 <= k < reversed@.len() ==> #[trigger] reversed@[k] == given[given.len() - 1
                    - k],
            entries_of(sorted@) == sorted_listing(wanted.take(done)),
        decreases reversed.len(),
    {
        let item = reversed.pop().unwrap();
        let ghost earlier = entries_of(sorted@);
        proof {
            assert(item == given[done]);
            assert(item@ == wanted[done]);
            lemma_sorted_listing(wanted.take(done));
            lemma_place_for(earlier, item@);
        }
        let mut place: usize = 0;
        while place < sorted.len() && !item.listed_before(&sorted[place])
            invariant
                place <= sorted@.len(),
                earlier == entries_of(sorted@),
                forall|k: int| 0 <= k < place ==> !listed_before(item@, #[trigger] earlier[k]),
            decreases sorted.len() - place,
        {
            place += 1;
        }
        proof {
            lemma_place_found(earlier, item@, place as int);
            let next = wanted.take(done + 1);
            assert(next.drop_last() =~= wanted.take(done));
            assert(next.last() == item@);
        }
        sorted.insert(place, item);
        proof {
            assert(entries_of(sorted@) =~= earlier.insert(place as int, item@));
            done = done + 1;
        }
    }
    proof {
        assert(wanted.take(done) =~= wanted);
        lemma_sorted_listing(wanted);
    }
    sorted
}

} // verus!
