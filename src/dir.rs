//! Directory names and the bounded collections that hold the browsed path and the listing of
//! the browsed directory.

use vstd::prelude::*;

use crate::sd::{first_of, SPACE};

verus! {

/// Bytes of a short name: eight for the base name, three for the extension, space padded.
pub const NAME_LEN: usize = 11;

/// Bytes of the base name.
pub const BASE_LEN: usize = 8;

/// Bytes of the extension.
pub const EXT_LEN: usize = 3;

/// Deepest path that can be browsed.
pub const MAX_DEPTH: usize = 8;

/// Most entries listed for one directory.
pub const MAX_ENTRIES: usize = 32;

/// The ASCII code of `.`.
pub const DOT: u8 = 0x2e;

/// An 8.3 short file name: base name and extension, each padded with spaces.
#[derive(Clone, Copy, Debug, PartialEq, Eq)]
pub struct ShortName {
    contents: [u8; 11],
}

impl View for ShortName {
    type V = Seq<u8>;

    closed spec fn view(&self) -> Seq<u8> {
        self.contents@
    }
}

/// The padded contents of the name `..`.
pub open spec fn parent_dir_bytes() -> Seq<u8> {
    seq![DOT, DOT, SPACE, SPACE, SPACE, SPACE, SPACE, SPACE, SPACE, SPACE, SPACE]
}

/// The padded contents of the name `.`.
pub open spec fn this_dir_bytes() -> Seq<u8> {
    seq![DOT, SPACE, SPACE, SPACE, SPACE, SPACE, SPACE, SPACE, SPACE, SPACE, SPACE]
}

/// `n` spaces.
pub open spec fn spaces(n: nat) -> Seq<u8> {
    Seq::new(n, |i: int| SPACE)
}

/// The base name of padded contents: the bytes of the first eight before the first space.
pub open spec fn base_of(contents: Seq<u8>) -> Seq<u8> {
    let b = contents.subrange(0, BASE_LEN as int);
    b.subrange(0, first_of(b, SPACE) as int)
}

/// The extension of padded contents: the bytes of the last three before the first space.
pub open spec fn ext_of(contents: Seq<u8>) -> Seq<u8> {
    let e = contents.subrange(BASE_LEN as int, NAME_LEN as int);
    e.subrange(0, first_of(e, SPACE) as int)
}

impl ShortName {
    /// The name has eleven bytes.
    #[verifier::type_invariant]
    closed spec fn inv(self) -> bool {
        self.contents@.len() == NAME_LEN
    }

    /// The name `..`, the parent directory.
    pub fn parent_dir() -> (r: ShortName)
        ensures
            r@ == parent_dir_bytes(),
    {
        let r = ShortName { contents: [DOT, DOT, SPACE, SPACE, SPACE, SPACE, SPACE, SPACE, SPACE, SPACE, SPACE] };
        assert(r@ =~= parent_dir_bytes());
        r
    }

    /// The name `.`, the directory itself.
    pub fn this_dir() -> (r: ShortName)
        ensures
            r@ == this_dir_bytes(),
    {
        let r = ShortName { contents: [DOT, SPACE, SPACE, SPACE, SPACE, SPACE, SPACE, SPACE, SPACE, SPACE, SPACE] };
        assert(r@ =~= this_dir_bytes());
        r
    }

    /// The name with base name `base` and extension `ext`, each padded with spaces; `None`
    /// when the base name is longer than eight bytes or the extension longer than three.
    pub fn new(base: &[u8], ext: &[u8]) -> (r: Option<ShortName>)
        ensures
            r is Some <==> (base@.len() <= BASE_LEN && ext@.len() <= EXT_LEN),
            r matches Some(n) ==> n@ == base@ + spaces((BASE_LEN - base@.len()) as nat) + ext@
                + spaces((EXT_LEN - ext@.len()) as nat),
    {
        if base.len() > BASE_LEN || ext.len() > EXT_LEN {
            return None;
        }
        let mut contents: [u8; 11] = [SPACE; 11];
        let mut i: usize = 0;
        while i < base.len()
            invariant
                base@.len() <= BASE_LEN,
                i <= base@.len(),
                contents@.len() == NAME_LEN,
                forall|k: int| 0 <= k < i ==> contents@[k] == base@[k],
                forall|k: int| i <= k < NAME_LEN ==> contents@[k] == SPACE,
            decreases base@.len() - i,
        {
            contents.set(i, base[i]);
            i = i + 1;
        }
        let mut j: usize = 0;
        while j < ext.len()
            invariant
                base@.len() <= BASE_LEN,
                ext@.len() <= EXT_LEN,
                j <= ext@.len(),
                contents@.len() == NAME_LEN,
                forall|k: int| 0 <= k < base@.len() ==> contents@[k] == base@[k],
                forall|k: int| base@.len() <= k < BASE_LEN ==> contents@[k] == SPACE,
                forall|k: int| 0 <= k < j ==> contents@[BASE_LEN + k] == ext@[k],
                forall|k: int| BASE_LEN + j <= k < NAME_LEN ==> contents@[k] == SPACE,
            decreases ext@.len() - j,
        {
            contents.set(BASE_LEN + j, ext[j]);
            j = j + 1;
        }
        let r = ShortName { contents };
        assert(r@ =~= base@ + spaces((BASE_LEN - base@.len()) as nat) + ext@ + spaces((EXT_LEN - ext@.len()) as nat));
        Some(r)
    }

    /// The padded contents: eight bytes of base name, three of extension.
    pub fn contents(&self) -> (r: [u8; 11])
        ensures
            r@ == self@,
    {
        self.contents
    }

    /// Whether two names are the same.
    pub fn same(&self, other: &ShortName) -> (r: bool)
        ensures
            r == (self@ == other@),
    {
        proof {
            use_type_invariant(self);
            use_type_invariant(other);
        }
        let mut i: usize = 0;
        while i < NAME_LEN
            invariant
                self@.len() == NAME_LEN,
                other@.len() == NAME_LEN,
                i <= NAME_LEN,
                forall|k: int| 0 <= k < i ==> self@[k] == other@[k],
            decreases NAME_LEN - i,
        {
            if self.contents[i] != other.contents[i] {
                return false;
            }
            i = i + 1;
        }
        assert(self@ =~= other@);
        true
    }

    /// Whether this is the name `..`.
    pub fn is_parent_dir(&self) -> (r: bool)
        ensures
            r == (self@ == parent_dir_bytes()),
    {
        self.same(&ShortName::parent_dir())
    }

    /// Whether this is the name `.`.
    pub fn is_this_dir(&self) -> (r: bool)
        ensures
            r == (self@ == this_dir_bytes()),
    {
        self.same(&ShortName::this_dir())
    }

    /// Length of the base name: the bytes of the first eight before the first space.
    pub fn base_len(&self) -> (r: usize)
        ensures
            r == base_of(self@).len(),
            r <= BASE_LEN,
    {
        proof {
            use_type_invariant(self);
        }
        let ghost b = self@.subrange(0, BASE_LEN as int);
        let mut i: usize = 0;
        while i < BASE_LEN && self.contents[i] != SPACE
            invariant
                self@.len() == NAME_LEN,
                b == self@.subrange(0, BASE_LEN as int),
                i <= BASE_LEN,
                forall|k: int| 0 <= k < i ==> self@[k] != SPACE,
            decreases BASE_LEN - i,
        {
            i = i + 1;
        }
        proof {
            crate::sd::lemma_first_of(self@, SPACE, 0, i as int, BASE_LEN as int);
        }
        i
    }

    /// Length of the extension: the bytes of the last three before the first space.
    pub fn ext_len(&self) -> (r: usize)
        ensures
            r == ext_of(self@).len(),
            r <= EXT_LEN,
    {
        proof {
            use_type_invariant(self);
        }
        let mut i: usize = 0;
        while i < EXT_LEN && self.contents[BASE_LEN + i] != SPACE
            invariant
                self@.len() == NAME_LEN,
                i <= EXT_LEN,
                forall|k: int| BASE_LEN <= k < BASE_LEN + i ==> self@[k] != SPACE,
            decreases EXT_LEN - i,
        {
            i = i + 1;
        }
        proof {
            crate::sd::lemma_first_of(self@, SPACE, BASE_LEN as int, BASE_LEN + i, NAME_LEN as int);
        }
        i
    }
}

#[verifier::external_type_specification]
#[verifier::external_body]
#[verifier::reject_recursive_types(T)]
pub struct ExVec<T, const N: usize>(heapless::Vec<T, N>);

/// The names held by a path vector, outermost first.
pub uninterp spec fn path_names(v: heapless::Vec<ShortName, MAX_DEPTH>) -> Seq<Seq<u8>>;

/// The entries held by a listing vector, in order: whether each is a directory, and its name.
pub uninterp spec fn listed_entries(v: heapless::Vec<(bool, ShortName), MAX_ENTRIES>) -> Seq<(bool, Seq<u8>)>;

/// Relies on heapless::Vec::new: a new vector is empty.
#[verifier::external_body]
fn path_vec_new() -> (r: heapless::Vec<ShortName, MAX_DEPTH>)
    ensures
        path_names(r) == Seq::<Seq<u8>>::empty(),
{
    heapless::Vec::new()
}

/// Relies on heapless::Vec's length (through its slice): the number of names held, never more
/// than its capacity.
#[verifier::external_body]
fn path_vec_len(v: &heapless::Vec<ShortName, MAX_DEPTH>) -> (r: usize)
    ensures
        r == path_names(*v).len(),
        r <= MAX_DEPTH,
{
    v.len()
}

/// Relies on heapless::Vec's indexing (through its slice): the name at `i`.
#[verifier::external_body]
fn path_vec_get(v: &heapless::Vec<ShortName, MAX_DEPTH>, i: usize) -> (r: ShortName)
    requires
        i < path_names(*v).len(),
    ensures
        r@ == path_names(*v)[i as int],
{
    v[i]
}

/// Relies on heapless::Vec::push: appends, or hands the name back when the vector is full.
#[verifier::external_body]
fn path_vec_push(v: &mut heapless::Vec<ShortName, MAX_DEPTH>, n: ShortName) -> (r: Result<(), ShortName>)
    ensures
        path_names(*old(v)).len() < MAX_DEPTH ==> r is Ok && path_names(*final(v)) == path_names(*old(v)).push(n@),
        path_names(*old(v)).len() >= MAX_DEPTH ==> r is Err && path_names(*final(v)) == path_names(*old(v)),
{
    v.push(n)
}

/// Relies on heapless::Vec::pop: removes and returns the last name, if any.
#[verifier::external_body]
fn path_vec_pop(v: &mut heapless::Vec<ShortName, MAX_DEPTH>) -> (r: Option<ShortName>)
    ensures
        path_names(*old(v)).len() == 0 ==> r is None && path_names(*final(v)) == path_names(*old(v)),
        path_names(*old(v)).len() > 0 ==> (r matches Some(n) && n@ == path_names(*old(v)).last())
            && path_names(*final(v)) == path_names(*old(v)).drop_last(),
{
    v.pop()
}

/// Relies on heapless::Vec::new: a new vector is empty.
#[verifier::external_body]
fn listing_vec_new() -> (r: heapless::Vec<(bool, ShortName), MAX_ENTRIES>)
    ensures
        listed_entries(r) == Seq::<(bool, Seq<u8>)>::empty(),
{
    heapless::Vec::new()
}

/// Relies on heapless::Vec's length (through its slice): the number of entries held, never
/// more than its capacity.
#[verifier::external_body]
fn listing_vec_len(v: &heapless::Vec<(bool, ShortName), MAX_ENTRIES>) -> (r: usize)
    ensures
        r == listed_entries(*v).len(),
        r <= MAX_ENTRIES,
{
    v.len()
}

/// Relies on heapless::Vec's indexing (through its slice): the entry at `i`.
#[verifier::external_body]
fn listing_vec_get(v: &heapless::Vec<(bool, ShortName), MAX_ENTRIES>, i: usize) -> (r: (bool, ShortName))
    requires
        i < listed_entries(*v).len(),
    ensures
        (r.0, r.1@) == listed_entries(*v)[i as int],
{
    v[i]
}

/// Relies on heapless::Vec::insert: puts the entry at `i`, shifting the later ones, or hands
/// it back when the vector is full. It panics when `i` is past the end.
#[verifier::external_body]
fn listing_vec_insert(v: &mut heapless::Vec<(bool, ShortName), MAX_ENTRIES>, i: usize, e: (bool, ShortName)) -> (r: Result<(), (bool, ShortName)>)
    requires
        i <= listed_entries(*old(v)).len(),
    ensures
        listed_entries(*old(v)).len() < MAX_ENTRIES ==> r is Ok && listed_entries(*final(v)) == listed_entries(*old(v)).insert(i as int, (e.0, e.1@)),
        listed_entries(*old(v)).len() >= MAX_ENTRIES ==> r is Err && listed_entries(*final(v)) == listed_entries(*old(v)),
{
    v.insert(i, e)
}

/// Relies on heapless::Vec::pop: removes and returns the last entry, if any.
#[verifier::external_body]
fn listing_vec_pop(v: &mut heapless::Vec<(bool, ShortName), MAX_ENTRIES>) -> (r: Option<(bool, ShortName)>)
    ensures
        listed_entries(*old(v)).len() == 0 ==> r is None && listed_entries(*final(v)) == listed_entries(*old(v)),
        listed_entries(*old(v)).len() > 0 ==> (r matches Some(e) && (e.0, e.1@) == listed_entries(*old(v)).last())
            && listed_entries(*final(v)) == listed_entries(*old(v)).drop_last(),
{
    v.pop()
}

/// The browsed path: the names of the directories entered, outermost first, possibly ended
/// by the selected file; at most [`MAX_DEPTH`] names.
pub struct DirPath {
    names: heapless::Vec<ShortName, MAX_DEPTH>,
}

impl DirPath {
    /// The names, outermost first.
    pub closed spec fn names(&self) -> Seq<Seq<u8>> {
        path_names(self.names)
    }

    /// An empty path: the root directory.
    pub fn new() -> (r: DirPath)
        ensures
            r.names() == Seq::<Seq<u8>>::empty(),
    {
        DirPath { names: path_vec_new() }
    }

    /// The number of names.
    pub fn len(&self) -> (r: usize)
        ensures
            r == self.names().len(),
            r <= MAX_DEPTH,
    {
        path_vec_len(&self.names)
    }

    /// Whether the path is the root directory.
    pub fn is_empty(&self) -> (r: bool)
        ensures
            r == (self.names().len() == 0),
    {
        path_vec_len(&self.names) == 0
    }

    /// Whether no name can be added.
    pub fn is_full(&self) -> (r: bool)
        ensures
            r == (self.names().len() >= MAX_DEPTH),
    {
        path_vec_len(&self.names) >= MAX_DEPTH
    }

    /// The name at `i`.
    pub fn get(&self, i: usize) -> (r: ShortName)
        requires
            i < self.names().len(),
        ensures
            r@ == self.names()[i as int],
    {
        path_vec_get(&self.names, i)
    }

    /// The innermost name, if any.
    pub fn last(&self) -> (r: Option<ShortName>)
        ensures
            r is Some <==> self.names().len() > 0,
            r matches Some(n) ==> n@ == self.names().last(),
    {
        let n = path_vec_len(&self.names);
        if n == 0 {
            None
        } else {
            Some(path_vec_get(&self.names, n - 1))
        }
    }

    /// Adds a name at the end; `false`, and nothing changed, when the path is full.
    pub fn push(&mut self, name: ShortName) -> (r: bool)
        ensures
            r == (old(self).names().len() < MAX_DEPTH),
            r ==> final(self).names() == old(self).names().push(name@),
            !r ==> final(self).names() == old(self).names(),
    {
        path_vec_push(&mut self.names, name).is_ok()
    }

    /// Removes the innermost name, if any.
    pub fn pop(&mut self) -> (r: Option<ShortName>)
        ensures
            final(self).names() == (if old(self).names().len() > 0 { old(self).names().drop_last() } else { old(self).names() }),
            r is Some <==> old(self).names().len() > 0,
            r matches Some(n) ==> n@ == old(self).names().last(),
    {
        path_vec_pop(&mut self.names)
    }
}

/// The listing of a directory: `(is_directory, name)` entries, at most [`MAX_ENTRIES`].
pub struct DirContent {
    entries: heapless::Vec<(bool, ShortName), MAX_ENTRIES>,
}

impl DirContent {
    /// The entries, in order.
    pub closed spec fn entries(&self) -> Seq<(bool, Seq<u8>)> {
        listed_entries(self.entries)
    }

    /// An empty listing.
    pub fn new() -> (r: DirContent)
        ensures
            r.entries() == Seq::<(bool, Seq<u8>)>::empty(),
    {
        DirContent { entries: listing_vec_new() }
    }

    /// The number of entries.
    pub fn len(&self) -> (r: usize)
        ensures
            r == self.entries().len(),
            r <= MAX_ENTRIES,
    {
        listing_vec_len(&self.entries)
    }

    /// The entry at `i`.
    pub fn get(&self, i: usize) -> (r: (bool, ShortName))
        requires
            i < self.entries().len(),
        ensures
            (r.0, r.1@) == self.entries()[i as int],
    {
        listing_vec_get(&self.entries, i)
    }

    /// Puts an entry at `i`, shifting the later ones; `false`, and nothing changed, when the
    /// listing is full.
    pub fn insert(&mut self, i: usize, is_dir: bool, name: ShortName) -> (r: bool)
        requires
            i <= old(self).entries().len(),
        ensures
            r == (old(self).entries().len() < MAX_ENTRIES),
            r ==> final(self).entries() == old(self).entries().insert(i as int, (is_dir, name@)),
            !r ==> final(self).entries() == old(self).entries(),
    {
        listing_vec_insert(&mut self.entries, i, (is_dir, name)).is_ok()
    }

    /// Adds an entry at the end; `false`, and nothing changed, when the listing is full.
    pub fn push(&mut self, is_dir: bool, name: ShortName) -> (r: bool)
        ensures
            r == (old(self).entries().len() < MAX_ENTRIES),
            r ==> final(self).entries() == old(self).entries().push((is_dir, name@)),
            !r ==> final(self).entries() == old(self).entries(),
    {
        let n = listing_vec_len(&self.entries);
        let r = listing_vec_insert(&mut self.entries, n, (is_dir, name)).is_ok();
        proof {
            if r {
                assert(old(self).entries().insert(n as int, (is_dir, name@)) =~= old(self).entries().push((is_dir, name@)));
            }
        }
        r
    }

    /// Removes the last entry, if any.
    pub fn pop(&mut self) -> (r: Option<(bool, ShortName)>)
        ensures
            final(self).entries() == (if old(self).entries().len() > 0 { old(self).entries().drop_last() } else { old(self).entries() }),
            r is Some <==> old(self).entries().len() > 0,
            r matches Some(e) ==> (e.0, e.1@) == old(self).entries().last(),
    {
        listing_vec_pop(&mut self.entries)
    }
}

} // verus!
