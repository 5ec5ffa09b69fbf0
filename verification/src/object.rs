//! Plain values for what the object store holds: ids, tree entries, commits.

use vstd::prelude::*;

verus! {

/// The file mode of a directory entry that names a subtree.
pub const MODE_TREE: u32 = 0o040000;

/// The file mode of a regular, non-executable file.
pub const MODE_FILE: u32 = 0o100644;

/// The file mode of an executable file.
pub const MODE_EXECUTABLE: u32 = 0o100755;

/// The bits of a file mode that tell the type of the entry.
pub const MODE_TYPE_MASK: u32 = 0o170000;

/// The type bits of an entry that names a commit of another repository.
pub const MODE_TYPE_LINK: u32 = 0o160000;

/// The content digest of an object: twenty bytes, compared byte by byte.
#[derive(Clone, Copy, Debug)]
pub struct ObjectId {
    pub bytes: [u8; 20],
}

impl View for ObjectId {
    type V = Seq<u8>;

    open spec fn view(&self) -> Seq<u8> {
        self.bytes@
    }
}

/// The character for one hexadecimal digit, lower case.
pub open spec fn hex_char(n: int) -> char {
    if n == 0 {
        '0'
    } else if n == 1 {
        '1'
    } else if n == 2 {
        '2'
    } else if n == 3 {
        '3'
    } else if n == 4 {
        '4'
    } else if n == 5 {
        '5'
    } else if n == 6 {
        '6'
    } else if n == 7 {
        '7'
    } else if n == 8 {
        '8'
    } else if n == 9 {
        '9'
    } else if n == 10 {
        'a'
    } else if n == 11 {
        'b'
    } else if n == 12 {
        'c'
    } else if n == 13 {
        'd'
    } else if n == 14 {
        'e'
    } else {
        'f'
    }
}

/// Two hexadecimal digits per byte, high digit first.
pub open spec fn hex_of(bytes: Seq<u8>) -> Seq<char> {
    Seq::new(
        2 * bytes.len(),
        |i: int|
            if i % 2 == 0 {
                hex_char(bytes[i / 2] as int / 16)
            } else {
                hex_char(bytes[i / 2] as int % 16)
            },
    )
}

fn hex_digit(n: u8) -> (r: &'static str)
    requires
        n < 16,
    ensures
        r@ == seq![hex_char(n as int)],
{
    proof {
        reveal_strlit("0");
        reveal_strlit("1");
        reveal_strlit("2");
        reveal_strlit("3");
        reveal_strlit("4");
        reveal_strlit("5");
        reveal_strlit("6");
        reveal_strlit("7");
        reveal_strlit("8");
        reveal_strlit("9");
        reveal_strlit("a");
        reveal_strlit("b");
        reveal_strlit("c");
        reveal_strlit("d");
        reveal_strlit("e");
        reveal_strlit("f");
    }
    let r = if n == 0 {
        "0"
    } else if n == 1 {
        "1"
    } else if n == 2 {
        "2"
    } else if n == 3 {
        "3"
    } else if n == 4 {
        "4"
    } else if n == 5 {
        "5"
    } else if n == 6 {
        "6"
    } else if n == 7 {
        "7"
    } else if n == 8 {
        "8"
    } else if n == 9 {
        "9"
    } else if n == 10 {
        "a"
    } else if n == 11 {
        "b"
    } else if n == 12 {
        "c"
    } else if n == 13 {
        "d"
    } else if n == 14 {
        "e"
    } else {
        "f"
    };
    assert(r@ =~= seq![hex_char(n as int)]);
    r
}

impl ObjectId {
    /// The id made of the given twenty bytes.
    pub fn from_bytes(bytes: [u8; 20]) -> (r: ObjectId)
        ensures
            r@ == bytes@,
    {
        ObjectId { bytes }
    }

    /// Byte equality.
    pub fn same(&self, other: &ObjectId) -> (r: bool)
        ensures
            r == (self@ == other@),
    {
        let mut i: usize = 0;
        while i < 20
            invariant
                i <= 20,
                forall|j: int| 0 <= j < i ==> self.bytes@[j] == other.bytes@[j],
            decreases 20 - i,
        {
            if self.bytes[i] != other.bytes[i] {
                return false;
            }
            i += 1;
        }
        assert(self@ =~= other@);
        true
    }

    /// The id in forty lower-case hexadecimal digits.
    pub fn to_hex(&self) -> (r: String)
        ensures
            r@ == hex_of(self@),
    {
        let mut out = String::new();
        let mut i: usize = 0;
        while i < 20
            invariant
                i <= 20,
                out@ == hex_of(self@.take(i as int)),
            decreases 20 - i,
        {
            let b: u8 = self.bytes[i];
            out.append(hex_digit(b / 16));
            out.append(hex_digit(b % 16));
            assert(out@ =~= hex_of(self@.take(i + 1))) by {
                let prev = hex_of(self@.take(i as int));
                let next = hex_of(self@.take(i + 1));
                assert(next.len() == prev.len() + 2);
                assert forall|k: int| 0 <= k < next.len() implies out@[k] == next[k] by {
                    if k < prev.len() {
                        assert(self@.take(i + 1)[k / 2] == self@.take(i as int)[k / 2]);
                    }
                }
            }
            i += 1;
        }
        assert(self@.take(20) =~= self@);
        out
    }
}

/// What a directory entry names.
#[derive(Clone, Copy, Debug, PartialEq, Eq, Structural)]
pub enum EntryKind {
    Blob,
    Tree,
}

/// The kind of object that an entry of the given file mode names; `None`
/// for an entry that names a commit of another repository.
pub open spec fn kind_of_mode(mode: u32) -> Option<EntryKind> {
    if mode & MODE_TYPE_MASK == MODE_TYPE_LINK {
        None
    } else if mode & MODE_TYPE_MASK == MODE_TREE {
        Some(EntryKind::Tree)
    } else {
        Some(EntryKind::Blob)
    }
}

/// One entry of a tree, as a mathematical value.
pub struct EntryModel {
    pub name: Seq<u8>,
    pub id: Seq<u8>,
    pub mode: u32,
}

/// One entry of a tree: a single path component, the object it names and
/// its file mode.
#[derive(Clone, Debug)]
pub struct TreeEntry {
    pub name: Vec<u8>,
    pub id: ObjectId,
    pub mode: u32,
}

impl View for TreeEntry {
    type V = EntryModel;

    open spec fn view(&self) -> EntryModel {
        EntryModel { name: self.name@, id: self.id@, mode: self.mode }
    }
}

impl TreeEntry {
    /// Whether the entry names a blob, a tree or neither.
    pub fn kind(&self) -> (r: Option<EntryKind>)
        ensures
            r == kind_of_mode(self.mode),
    {
        if self.mode & MODE_TYPE_MASK == MODE_TYPE_LINK {
            None
        } else if self.mode & MODE_TYPE_MASK == MODE_TREE {
            Some(EntryKind::Tree)
        } else {
            Some(EntryKind::Blob)
        }
    }
}

/// The entries of a list, each as a mathematical value.
pub open spec fn entries_view(entries: Seq<TreeEntry>) -> Seq<EntryModel> {
    entries.map_values(|e: TreeEntry| e@)
}

/// A commit, as a mathematical value.
pub struct CommitModel {
    pub id: Seq<u8>,
    pub tree: Seq<u8>,
    pub parents: Seq<Seq<u8>>,
    pub summary: Option<Seq<char>>,
    pub time: i64,
}

/// What the logic reads of a commit.
#[derive(Clone, Debug)]
pub struct CommitRecord {
    pub id: ObjectId,
    pub tree: ObjectId,
    /// The parents in order: none for a root, one for an ordinary commit,
    /// two or more for a merge.
    pub parents: Vec<ObjectId>,
    /// The first paragraph of the message, where it is valid UTF-8.
    pub summary: Option<String>,
    /// The author's timestamp, in seconds since the epoch.
    pub time: i64,
}

/// The ids of a list, each as its bytes.
pub open spec fn ids_view(ids: Seq<ObjectId>) -> Seq<Seq<u8>> {
    ids.map_values(|id: ObjectId| id@)
}

impl View for CommitRecord {
    type V = CommitModel;

    open spec fn view(&self) -> CommitModel {
        CommitModel {
            id: self.id@,
            tree: self.tree@,
            parents: ids_view(self.parents@),
            summary: match self.summary {
                Some(s) => Some(s@),
                None => None,
            },
            time: self.time,
        }
    }
}

} // verus!
