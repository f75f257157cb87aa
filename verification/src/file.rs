//! The resource tables: what the server serves, held in memory.
//!
//! A table maps a path, which always starts with a slash, to content. It is
//! filled once, before any connection is served, and only read afterwards.

use vstd::hash_map::StringHashMap;
use vstd::prelude::*;
use vstd::string::*;

verus! {

/// The files that are served as they are: path to bytes.
pub struct StaticFiles {
    files: StringHashMap<Vec<u8>>,
}

/// The templates that pages are made from: path to text.
pub struct DynamicFiles {
    files: StringHashMap<String>,
}

/// Both tables of a server.
pub struct ServerFiles {
    pub static_files: StaticFiles,
    pub dynamic_files: DynamicFiles,
}

impl View for StaticFiles {
    type V = Map<Seq<char>, Seq<u8>>;

    closed spec fn view(&self) -> Map<Seq<char>, Seq<u8>> {
        self.files@.map_values(|content: Vec<u8>| content@)
    }
}

impl View for DynamicFiles {
    type V = Map<Seq<char>, Seq<char>>;

    closed spec fn view(&self) -> Map<Seq<char>, Seq<char>> {
        self.files@.map_values(|content: String| content@)
    }
}

impl StaticFiles {
    /// An empty table.
    pub fn new() -> (table: StaticFiles)
        ensures
            table@ == Map::<Seq<char>, Seq<u8>>::empty(),
    {
        let table = StaticFiles { files: StringHashMap::new() };
        assert(table@ =~= Map::<Seq<char>, Seq<u8>>::empty());
        table
    }

    /// Stores `content` under `path`, in place of what was there.
    pub fn insert(&mut self, path: String, content: Vec<u8>)
        ensures
            final(self)@ == old(self)@.insert(path@, content@),
    {
        self.files.insert(path, content);
        assert(self@ =~= old(self)@.insert(path@, content@));
    }

    /// The content stored under exactly `path`, if any.
    pub fn get(&self, path: &str) -> (content: Option<&Vec<u8>>)
        ensures
            match content {
                Some(bytes) => self@.contains_key(path@) && bytes@ == self@[path@],
                None => !self@.contains_key(path@),
            },
    {
        self.files.get(path)
    }

    /// Whether something is stored under exactly `path`.
    pub fn contains_key(&self, path: &str) -> (found: bool)
        ensures
            found == self@.contains_key(path@),
    {
        self.files.contains_key(path)
    }

    /// Adds all of `other`; where both hold a path, the content of `other`
    /// stays.
    pub fn override_with(&mut self, other: StaticFiles)
        ensures
            final(self)@ == old(self)@.union_prefer_right(other@),
    {
        self.files.union_prefer_right(other.files);
        assert(self@ =~= old(self)@.union_prefer_right(other@));
    }
}

impl DynamicFiles {
    /// An empty table.
    pub fn new() -> (table: DynamicFiles)
        ensures
            table@ == Map::<Seq<char>, Seq<char>>::empty(),
    {
        let table = DynamicFiles { files: StringHashMap::new() };
        assert(table@ =~= Map::<Seq<char>, Seq<char>>::empty());
        table
    }

    /// Stores `content` under `path`, in place of what was there.
    pub fn insert(&mut self, path: String, content: String)
        ensures
            final(self)@ == old(self)@.insert(path@, content@),
    {
        self.files.insert(path, content);
        assert(self@ =~= old(self)@.insert(path@, content@));
    }

    /// The template stored under exactly `path`, if any.
    pub fn get(&self, path: &str) -> (content: Option<&String>)
        ensures
            match content {
                Some(text) => self@.contains_key(path@) && text@ == self@[path@],
                None => !self@.contains_key(path@),
            },
    {
        self.files.get(path)
    }
}

/// The path under which a file named `name` is served when it lies directly
/// in the served directory.
pub open spec fn top_path(name: Seq<char>) -> Seq<char> {
    seq!['/'] + name
}

/// The path under which a file is served that has the path `inner` within a
/// directory named `directory`.
pub open spec fn nested_path(directory: Seq<char>, inner: Seq<char>) -> Seq<char> {
    seq!['/'] + directory + inner
}

/// Makes the path of a file that lies directly in the served directory.
pub fn path_of_file(name: &str) -> (path: String)
    ensures
        path@ == top_path(name@),
{
    proof {
        reveal_strlit("/");
    }
    let mut path = String::from_str("/");
    path.append(name);
    assert(path@ =~= top_path(name@));
    path
}

/// Makes the path of a file from the name of the directory it lies in and
/// its path within that directory.
pub fn path_in_directory(directory: &str, inner: &str) -> (path: String)
    ensures
        path@ == nested_path(directory@, inner@),
{
    proof {
        reveal_strlit("/");
    }
    let mut path = String::from_str("/");
    path.append(directory);
    path.append(inner);
    assert(path@ =~= nested_path(directory@, inner@));
    path
}

/// Builds the table of static files from what was packaged with the server
/// and what the user's directory holds. Where both hold a path, the user's
/// file is served.
pub fn load_static_files(packaged: StaticFiles, provided: StaticFiles) -> (table: StaticFiles)
    ensures
        table@ == packaged@.union_prefer_right(provided@),
        forall|path: Seq<char>| #[trigger]
            provided@.contains_key(path) ==> table@.contains_key(path) && table@[path]
                == provided@[path],
        forall|path: Seq<char>|
            packaged@.contains_key(path) && !provided@.contains_key(path) ==> #[trigger] table@.contains_key(
                path,
            ) && table@[path] == packaged@[path],
        forall|path: Seq<char>| #[trigger]
            table@.contains_key(path) ==> packaged@.contains_key(path) || provided@.contains_key(
                path,
            ),
{
    let mut table = packaged;
    table.override_with(provided);
    table
}

} // verus!
