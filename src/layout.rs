//! Where fixtures live: `<root>/<name>/global_state/data.lmdb` and
//! `<root>/<name>/state.json`. Paths are sequences of components.

use vstd::prelude::*;
use crate::error::FixtureError;

verus! {

/// File name of a fixture's descriptor.
pub const STATE_JSON_FILE: &'static str = "state.json";

/// Directory of a fixture that holds the store.
pub const GLOBAL_STATE_DIR: &'static str = "global_state";

/// The store's backing file inside that directory.
pub const DATA_FILE: &'static str = "data.lmdb";

/// A path as its components.
pub open spec fn path_view(p: Seq<String>) -> Seq<Seq<char>> {
    p.map_values(|c: String| c@)
}

/// A name is one path component that names a directory of its own: not
/// empty, not `.` or `..`, with no separator and no NUL.
pub open spec fn valid_fixture_name(n: Seq<char>) -> bool {
    &&& n.len() > 0
    &&& n != seq!['.']
    &&& n != seq!['.', '.']
    &&& forall|i: int| 0 <= i < n.len() ==> #[trigger] n[i] != '/' && n[i] != '\\' && n[i] != '\0'
}

/// The directory under which all fixtures live.
#[derive(Clone, Debug)]
pub struct FixturesRoot {
    pub components: Vec<String>,
}

/// The paths of one fixture.
#[derive(Clone, Debug)]
pub struct FixturePaths {
    /// `<root>/<name>`
    pub dir: Vec<String>,
    /// `<root>/<name>/global_state/data.lmdb`
    pub data_file: Vec<String>,
    /// `<root>/<name>/state.json`
    pub state_file: Vec<String>,
}

impl View for FixturesRoot {
    type V = Seq<Seq<char>>;

    open spec fn view(&self) -> Seq<Seq<char>> {
        path_view(self.components@)
    }
}

/// The fixture directory for `name` under `root`.
pub open spec fn fixture_dir_of(root: Seq<Seq<char>>, name: Seq<char>) -> Seq<Seq<char>> {
    root.push(name)
}

/// The store's backing file of fixture `name`.
pub open spec fn data_file_of(root: Seq<Seq<char>>, name: Seq<char>) -> Seq<Seq<char>> {
    fixture_dir_of(root, name).push(GLOBAL_STATE_DIR@).push(DATA_FILE@)
}

/// The descriptor file of fixture `name`.
pub open spec fn state_file_of(root: Seq<Seq<char>>, name: Seq<char>) -> Seq<Seq<char>> {
    fixture_dir_of(root, name).push(STATE_JSON_FILE@)
}

impl FixturePaths {
    /// Whether these are the paths of fixture `name` under `root`.
    pub open spec fn of(&self, root: Seq<Seq<char>>, name: Seq<char>) -> bool {
        &&& path_view(self.dir@) == fixture_dir_of(root, name)
        &&& path_view(self.data_file@) == data_file_of(root, name)
        &&& path_view(self.state_file@) == state_file_of(root, name)
    }
}

/// The fixtures root used when none is configured: `./fixtures`.
pub fn path_to_lmdb_fixtures() -> (r: FixturesRoot)
    ensures
        r@ == seq!["."@, "fixtures"@],
{
    let mut components: Vec<String> = Vec::new();
    components.push(String::from_str("."));
    components.push(String::from_str("fixtures"));
    let r = FixturesRoot { components };
    assert(r@ =~= seq!["."@, "fixtures"@]);
    r
}

/// Whether `name` can name a fixture directory.
pub fn is_valid_fixture_name(name: &str) -> (r: bool)
    ensures
        r == valid_fixture_name(name@),
{
    let n = name.unicode_len();
    if n == 0 {
        return false;
    }
    if n <= 2 && name.get_char(0) == '.' && (n == 1 || name.get_char(1) == '.') {
        proof {
            if n == 1 {
                assert(name@ =~= seq!['.']);
            } else {
                assert(name@ =~= seq!['.', '.']);
            }
        }
        return false;
    }
    let mut i: usize = 0;
    while i < n
        invariant
            n == name@.len(),
            i <= n,
            forall|j: int| 0 <= j < i ==> #[trigger] name@[j] != '/' && name@[j] != '\\' && name@[j] != '\0',
        decreases n - i,
    {
        let c = name.get_char(i);
        if c == '/' || c == '\\' || c == '\0' {
            return false;
        }
        i = i + 1;
    }
    proof {
        if name@ == seq!['.'] || name@ == seq!['.', '.'] {
            assert(name@[0] == '.');
        }
    }
    true
}

/// A copy of a path with one more component at its end.
fn join(base: &Vec<String>, last: &str) -> (r: Vec<String>)
    ensures
        path_view(r@) == path_view(base@).push(last@),
{
    let mut r: Vec<String> = Vec::new();
    let mut i: usize = 0;
    while i < base.len()
        invariant
            i <= base@.len(),
            path_view(r@) =~= path_view(base@.subrange(0, i as int)),
        decreases base@.len() - i,
    {
        let c = base[i].clone();
        let ghost prev = r@;
        r.push(c);
        assert(path_view(r@) =~= path_view(prev).push(base@[i as int]@));
        assert(path_view(base@.subrange(0, i + 1)) =~= path_view(base@.subrange(0, i as int)).push(
            base@[i as int]@,
        ));
        i = i + 1;
    }
    assert(base@.subrange(0, base@.len() as int) =~= base@);
    r.push(String::from_str(last));
    assert(path_view(r@) =~= path_view(base@).push(last@));
    r
}

impl FixturesRoot {
    /// A root made of the given components.
    pub fn new(components: Vec<String>) -> (r: FixturesRoot)
        ensures
            r.components@ == components@,
    {
        FixturesRoot { components }
    }

    /// The paths of fixture `name`; an error where the name is not valid.
    pub fn fixture_paths(&self, name: &str) -> (r: Result<FixturePaths, FixtureError>)
        ensures
            match r {
                Ok(p) => valid_fixture_name(name@) && p.of(self@, name@),
                Err(e) => !valid_fixture_name(name@) && e is InvalidName && e->InvalidName_name@
                    == name@,
            },
    {
        if !is_valid_fixture_name(name) {
            return Err(FixtureError::InvalidName { name: String::from_str(name) });
        }
        let dir = join(&self.components, name);
        let gs = join(&dir, GLOBAL_STATE_DIR);
        let data_file = join(&gs, DATA_FILE);
        let state_file = join(&dir, STATE_JSON_FILE);
        Ok(FixturePaths { dir, data_file, state_file })
    }
}

} // verus!
