//! The attribute-file model: paths under a group directory, a listing of
//! its files with their trimmed contents, and pending writes.

use vstd::prelude::*;

verus! {

/// `name` under directory `base`, as `Path::join` forms it for a relative
/// name: a separator is added unless `base` is empty or already ends in one.
pub open spec fn join_path(base: Seq<char>, name: Seq<char>) -> Seq<char> {
    if base.len() == 0 || base.last() == '/' {
        base + name
    } else {
        base + seq!['/'] + name
    }
}

/// The path of file `name` in directory `base`.
pub fn join(base: &str, name: &str) -> (r: String)
    ensures
        r@ == join_path(base@, name@),
{
    let n = base.unicode_len();
    let mut r = String::from_str(base);
    if n > 0 && base.get_char(n - 1) != '/' {
        r.append("/");
        proof {
            reveal_strlit("/");
        }
    }
    r.append(name);
    assert(r@ =~= join_path(base@, name@));
    r
}

/// One regular file found directly in a group directory: its name, and its
/// whitespace-trimmed text, or `None` where it could not be read.
pub struct FileEntry {
    pub name: String,
    pub content: Option<String>,
}

impl FileEntry {
    pub fn new(name: String, content: Option<String>) -> (r: FileEntry)
        ensures
            r.name == name,
            r.content == content,
    {
        FileEntry { name, content }
    }
}

/// The text of an entry, empty where it could not be read.
pub open spec fn entry_text(e: FileEntry) -> Seq<char> {
    match e.content {
        Some(c) => c@,
        None => Seq::empty(),
    }
}

/// The text of the first entry named `name`, or empty where there is no
/// such file or it could not be read.
pub open spec fn attribute_text(entries: Seq<FileEntry>, name: Seq<char>) -> Seq<char>
    decreases entries.len(),
{
    if entries.len() == 0 {
        Seq::empty()
    } else if entries[0].name@ == name {
        entry_text(entries[0])
    } else {
        attribute_text(entries.drop_first(), name)
    }
}

/// An optional attribute that exists but cannot be read reads as empty
/// text, exactly as a missing one does; neither stops a discovery.
pub proof fn lemma_unreadable_attribute_is_empty(
    entries: Seq<FileEntry>,
    name: Seq<char>,
    k: int,
)
    requires
        0 <= k < entries.len(),
        entries[k].name@ == name,
        entries[k].content is None,
        forall|j: int| 0 <= j < k ==> entries[j].name@ != name,
    ensures
        attribute_text(entries, name) == Seq::<char>::empty(),
    decreases k,
{
    if k > 0 {
        assert(entries[0].name@ != name);
        lemma_unreadable_attribute_is_empty(entries.drop_first(), name, k - 1);
    }
}

/// Reads the text of attribute `name` from a directory listing.
pub fn read_attribute(entries: &Vec<FileEntry>, name: &String) -> (r: String)
    ensures
        r@ == attribute_text(entries@, name@),
{
    let n = entries.len();
    let mut i: usize = 0;
    assert(entries@.subrange(0, n as int) =~= entries@);
    while i < n
        invariant
            n == entries@.len(),
            i <= n,
            attribute_text(entries@.subrange(i as int, n as int), name@) == attribute_text(
                entries@,
                name@,
            ),
        decreases n - i,
    {
        let ghost rest = entries@.subrange(i as int, n as int);
        assert(rest.drop_first() =~= entries@.subrange(i + 1, n as int));
        if entries[i].name == *name {
            return match &entries[i].content {
                Some(c) => c.clone(),
                None => String::new(),
            };
        }
        i = i + 1;
    }
    String::new()
}

/// A decimal value to be written to an attribute file.
pub struct AttributeWrite {
    pub path: String,
    pub value: String,
}

} // verus!
