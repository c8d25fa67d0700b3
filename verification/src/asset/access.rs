use crate::text::{chars_of, concat, concat4, string_of_range};
use std::marker::PhantomData;
use vstd::prelude::*;

verus! {

/// The file name of a json asset without its extension: the name where it is a name without
/// dots followed by ".json", and none otherwise.
pub open spec fn json_stem_spec(file_name: Seq<char>) -> Option<Seq<char>> {
    let n = file_name.len() as int;
    if n >= 5 && file_name.skip(n - 5) == ".json"@ && forall|i: int| 0 <= i < n - 5 ==> file_name[i] != '.' {
        Some(file_name.take(n - 5))
    } else {
        None
    }
}

/// The name of a json asset file without its extension: "goblin" for "goblin.json"; none for a
/// file of another extension or a name with more dots.
pub fn json_file_stem(file_name: &str) -> (r: Option<String>)
    ensures
        r is Some <==> json_stem_spec(file_name@) is Some,
        r matches Some(s) ==> s@ == json_stem_spec(file_name@)->0,
{
    proof {
        reveal_strlit(".json");
    }
    let chars = chars_of(file_name);
    let n = chars.len();
    if n < 5 {
        return None;
    }
    let dot = n - 5;
    if !(chars[dot] == '.' && chars[dot + 1] == 'j' && chars[dot + 2] == 's' && chars[dot + 3] == 'o' && chars[dot
        + 4] == 'n') {
        proof {
            if chars@.skip(dot as int) == ".json"@ {
                assert(chars@.skip(dot as int)[0] == '.');
                assert(chars@.skip(dot as int)[1] == 'j');
                assert(chars@.skip(dot as int)[2] == 's');
                assert(chars@.skip(dot as int)[3] == 'o');
                assert(chars@.skip(dot as int)[4] == 'n');
            }
        }
        return None;
    }
    assert(chars@.skip(dot as int) =~= ".json"@);
    let mut i: usize = 0;
    while i < dot
        invariant
            i <= dot,
            dot + 5 == chars.len(),
            chars@ == file_name@,
            forall|k: int| 0 <= k < i ==> chars@[k] != '.',
        decreases dot - i,
    {
        if chars[i] == '.' {
            assert(file_name@[i as int] == '.');
            return None;
        }
        i = i + 1;
    }
    let stem = string_of_range(&chars, 0, dot);
    assert(stem@ =~= chars@.take(dot as int));
    Some(stem)
}

/// The components of a path, split at '/', where empty components and "." are left out.
pub open spec fn components(path: Seq<char>) -> Seq<Seq<char>> {
    flushed(split_state(path))
}

/// The components found so far and the component being read.
pub open spec fn split_state(path: Seq<char>) -> (Seq<Seq<char>>, Seq<char>)
    decreases path.len(),
{
    if path.len() == 0 {
        (Seq::empty(), Seq::empty())
    } else {
        let (done, current) = split_state(path.drop_last());
        if path.last() == '/' {
            (flushed((done, current)), Seq::empty())
        } else {
            (done, current.push(path.last()))
        }
    }
}

/// The components with the one being read, where that is a real component.
pub open spec fn flushed(state: (Seq<Seq<char>>, Seq<char>)) -> Seq<Seq<char>> {
    if state.1.len() == 0 || state.1 == seq!['.'] {
        state.0
    } else {
        state.0.push(state.1)
    }
}

fn flush(done: &mut Vec<Vec<char>>, current: &Vec<char>)
    ensures
        final(done)@.map_values(|c: Vec<char>| c@) == flushed((old(done)@.map_values(|c: Vec<char>| c@), current@)),
{
    if current.len() == 0 || (current.len() == 1 && current[0] == '.') {
        proof {
            if current.len() == 1 {
                assert(current@ =~= seq!['.']);
            }
        }
        return;
    }
    let ghost before = done@;
    let mut copy: Vec<char> = Vec::new();
    let mut i: usize = 0;
    while i < current.len()
        invariant
            i <= current.len(),
            copy@ == current@.take(i as int),
        decreases current.len() - i,
    {
        copy.push(current[i]);
        i = i + 1;
        assert(copy@ =~= current@.take(i as int));
    }
    assert(current@.take(current.len() as int) =~= current@);
    assert(current@ != seq!['.']);
    done.push(copy);
    assert(done@.map_values(|c: Vec<char>| c@) =~= before.map_values(|c: Vec<char>| c@).push(current@));
}

/// The components of a path.
pub fn path_components(path: &str) -> (r: Vec<Vec<char>>)
    ensures
        r@.map_values(|c: Vec<char>| c@) == components(path@),
{
    let chars = chars_of(path);
    let mut done: Vec<Vec<char>> = Vec::new();
    let mut current: Vec<char> = Vec::new();
    let mut i: usize = 0;
    while i < chars.len()
        invariant
            i <= chars.len(),
            chars@ == path@,
            (done@.map_values(|c: Vec<char>| c@), current@) == split_state(chars@.take(i as int)),
        decreases chars.len() - i,
    {
        assert(chars@.take(i + 1).drop_last() =~= chars@.take(i as int));
        if chars[i] == '/' {
            flush(&mut done, &current);
            current = Vec::new();
        } else {
            current.push(chars[i]);
        }
        i = i + 1;
    }
    assert(chars@.take(chars.len() as int) =~= chars@);
    flush(&mut done, &current);
    done
}

/// Whether the path begins at the root.
pub open spec fn has_root(path: Seq<char>) -> bool {
    path.len() > 0 && path[0] == '/'
}

/// Whether a relative path begins with the current directory, "." alone or before a '/'.
pub open spec fn has_cur_dir(path: Seq<char>) -> bool {
    !has_root(path) && path.len() > 0 && path[0] == '.' && (path.len() == 1 || path[1] == '/')
}

/// The components of a path as a path compares them: the root ("/") where the path begins at
/// it, the current directory (".") where a relative path begins with it, then the named
/// components, where empty components and other "." are left out.
pub open spec fn path_components_spec(path: Seq<char>) -> Seq<Seq<char>> {
    (if has_root(path) {
        seq![seq!['/']]
    } else {
        Seq::empty()
    }) + (if has_cur_dir(path) {
        seq![seq!['.']]
    } else {
        Seq::empty()
    }) + components(path)
}

/// The components of a path as a path compares them, as [`path_components_spec`] says.
pub fn compared_components(path: &str) -> (r: Vec<Vec<char>>)
    ensures
        r@.map_values(|c: Vec<char>| c@) == path_components_spec(path@),
{
    let chars = chars_of(path);
    let named = path_components(path);
    let mut r: Vec<Vec<char>> = Vec::new();
    let root = chars.len() > 0 && chars[0] == '/';
    let cur = !root && chars.len() > 0 && chars[0] == '.' && (chars.len() == 1 || chars[1] == '/');
    assert(chars@ == path@);
    assert(root == has_root(path@));
    assert(cur == has_cur_dir(path@));
    if root {
        let mut v: Vec<char> = Vec::new();
        v.push('/');
        assert(v@ =~= seq!['/']);
        r.push(v);
    }
    if cur {
        let mut v: Vec<char> = Vec::new();
        v.push('.');
        assert(v@ =~= seq!['.']);
        let ghost before = r@;
        r.push(v);
        assert(r@.map_values(|c: Vec<char>| c@) =~= before.map_values(|c: Vec<char>| c@).push(seq!['.']));
    }
    let ghost lead = r@.map_values(|c: Vec<char>| c@);
    assert(lead =~= (if has_root(path@) {
        seq![seq!['/']]
    } else {
        Seq::empty()
    }) + (if has_cur_dir(path@) {
        seq![seq!['.']]
    } else {
        Seq::empty()
    }));
    let mut i: usize = 0;
    let ghost start = r@;
    while i < named.len()
        invariant
            i <= named.len(),
            r@.map_values(|c: Vec<char>| c@) == lead + named@.take(i as int).map_values(|c: Vec<char>| c@),
        decreases named.len() - i,
    {
        let mut copy: Vec<char> = Vec::new();
        let mut j: usize = 0;
        while j < named[i].len()
            invariant
                i < named.len(),
                j <= named[i as int].len(),
                copy@ == named[i as int]@.take(j as int),
            decreases named[i as int].len() - j,
        {
            copy.push(named[i][j]);
            j = j + 1;
            assert(copy@ =~= named[i as int]@.take(j as int));
        }
        assert(named[i as int]@.take(named[i as int].len() as int) =~= named[i as int]@);
        let ghost before = r@;
        r.push(copy);
        assert(r@.map_values(|c: Vec<char>| c@) =~= before.map_values(|c: Vec<char>| c@).push(named@[i as int]@));
        assert(named@.take(i + 1).map_values(|c: Vec<char>| c@) =~= named@.take(i as int).map_values(
            |c: Vec<char>| c@,
        ).push(named@[i as int]@));
        i = i + 1;
    }
    assert(named@.take(named.len() as int) =~= named@);
    r
}

/// Whether the components of `path` end with those of `suffix`.
pub open spec fn ends_with_components(path: Seq<Seq<char>>, suffix: Seq<Seq<char>>) -> bool {
    suffix.len() <= path.len() && path.skip(path.len() - suffix.len()) == suffix
}

fn char_vecs_equal(a: &Vec<char>, b: &Vec<char>) -> (r: bool)
    ensures
        r == (a@ == b@),
{
    crate::text::vec_chars_eq(a, b)
}

/// Whether the path ends with the components of `suffix`, whole components only, the root and
/// a leading current directory counting as components.
pub fn path_ends_with(path: &str, suffix: &str) -> (r: bool)
    ensures
        r == ends_with_components(path_components_spec(path@), path_components_spec(suffix@)),
{
    let p = compared_components(path);
    let s = compared_components(suffix);
    let ghost pv = p@.map_values(|c: Vec<char>| c@);
    let ghost sv = s@.map_values(|c: Vec<char>| c@);
    if s.len() > p.len() {
        return false;
    }
    let offset = p.len() - s.len();
    let mut i: usize = 0;
    while i < s.len()
        invariant
            i <= s.len(),
            offset + s.len() == p.len(),
            pv == p@.map_values(|c: Vec<char>| c@),
            sv == s@.map_values(|c: Vec<char>| c@),
            pv == path_components_spec(path@),
            sv == path_components_spec(suffix@),
            forall|k: int| 0 <= k < i ==> pv[offset + k] == sv[k],
        decreases s.len() - i,
    {
        if !char_vecs_equal(&p[offset + i], &s[i]) {
            assert(pv.skip(offset as int)[i as int] != sv[i as int]);
            assert(pv.skip(offset as int) != sv);
            return false;
        }
        i = i + 1;
    }
    assert(pv.skip(offset as int) =~= sv);
    true
}

/// A json file of the game's assets, by its path under `assets/`.
pub struct AssetFile<T> {
    path: &'static str,
    data_type: PhantomData<T>,
}

impl<T> AssetFile<T> {
    /// The path under `assets/`.
    pub closed spec fn path_view(&self) -> Seq<char> {
        self.path@
    }

    /// The asset file at `path` under `assets/`.
    pub fn new(path: &'static str) -> (f: Self)
        ensures
            f.path_view() == path@,
    {
        AssetFile { path, data_type: PhantomData }
    }

    /// Whether `path` names this file: its components end with those of the file's path.
    pub fn matches(&self, path: &str) -> (r: bool)
        ensures
            r == ends_with_components(path_components_spec(path@), path_components_spec(self.path_view())),
    {
        path_ends_with(path, self.path)
    }

    /// The path of the file: `assets/{path}`.
    pub fn file_path(&self) -> (p: String)
        ensures
            p@ == "assets/"@ + self.path_view(),
    {
        concat("assets/", self.path)
    }
}

/// A directory of json assets, one file per id, by its path under `assets/`.
pub struct AssetDirectory<T> {
    path: &'static str,
    data_type: PhantomData<T>,
}

impl<T> AssetDirectory<T> {
    /// The path under `assets/`.
    pub closed spec fn path_view(&self) -> Seq<char> {
        self.path@
    }

    /// The asset directory at `path` under `assets/`.
    pub fn new(path: &'static str) -> (d: Self)
        ensures
            d.path_view() == path@,
    {
        AssetDirectory { path, data_type: PhantomData }
    }

    /// The path of the directory: `assets/{path}`.
    pub fn dir_path(&self) -> (p: String)
        ensures
            p@ == "assets/"@ + self.path_view(),
    {
        concat("assets/", self.path)
    }

    /// The path of the file of `id`: `assets/{path}/{id}.json`.
    pub fn file_path(&self, id: &str) -> (p: String)
        ensures
            p@ == "assets/"@ + self.path_view() + "/"@ + id@ + ".json"@,
    {
        let dir = concat("assets/", self.path);
        concat4(dir.as_str(), "/", id, ".json")
    }
}

} // verus!
