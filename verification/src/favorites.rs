//! User favorites: files pinned for later, independent of the blacklist.

use vstd::prelude::*;
use crate::pathset::{has_file, without_file, list_has_file, list_remove_file};
use crate::text::{joined, join_file};

verus! {

broadcast use vstd::std_specs::vec::group_vec_axioms;

#[derive(Debug, Clone)]
pub struct Favorites {
    pub paths: Vec<String>,
}

impl View for Favorites {
    type V = Seq<Seq<char>>;

    open spec fn view(&self) -> Seq<Seq<char>> {
        self.paths.deep_view()
    }
}

impl Default for Favorites {
    fn default() -> (b: Self)
        ensures
            b@ == Seq::<Seq<char>>::empty(),
    {
        Favorites { paths: Vec::new() }
    }
}

impl Favorites {
    /// Movie favorites file inside the data directory.
    pub fn path_movies(data_dir: &str) -> (p: String)
        ensures
            p@ == joined(data_dir@, "favorites.json"@),
    {
        join_file(data_dir, "favorites.json")
    }

    /// Image favorites file inside the data directory.
    pub fn path_images(data_dir: &str) -> (p: String)
        ensures
            p@ == joined(data_dir@, "favorites_images.json"@),
    {
        join_file(data_dir, "favorites_images.json")
    }

    /// The listed paths, in order.
    pub fn as_path_set(&self) -> (v: Vec<String>)
        ensures
            v.deep_view() == self@,
    {
        let v = self.paths.clone();
        assert(v.deep_view() =~= self.paths.deep_view());
        v
    }

    /// Is `path` listed (ASCII case-insensitively)?
    pub fn contains(&self, path: &str) -> (r: bool)
        ensures
            r == has_file(self@, path@),
    {
        list_has_file(&self.paths, path)
    }

    /// Lists `path`: older spellings of the same file are dropped and `path`
    /// goes to the end.
    pub fn add(&mut self, path: &str)
        ensures
            final(self)@ == without_file(old(self)@, path@).push(path@),
    {
        list_remove_file(&mut self.paths, path);
        let ghost mid = self.paths.deep_view();
        self.paths.push(String::from_str(path));
        assert(self.paths.deep_view() =~= mid.push(path@));
    }

    /// Unlists every spelling of `path`.
    pub fn remove(&mut self, path: &str)
        ensures
            final(self)@ == without_file(old(self)@, path@),
    {
        list_remove_file(&mut self.paths, path);
    }

    /// Adds `path` if it is not listed, removes it otherwise; returns whether
    /// it is listed now.
    pub fn toggle(&mut self, path: &str) -> (now: bool)
        ensures
            now == !has_file(old(self)@, path@),
            now ==> final(self)@ == without_file(old(self)@, path@).push(path@),
            !now ==> final(self)@ == without_file(old(self)@, path@),
    {
        if self.contains(path) {
            self.remove(path);
            false
        } else {
            self.add(path);
            true
        }
    }

    pub fn len(&self) -> (n: usize)
        ensures
            n == self@.len(),
    {
        self.paths.len()
    }

    pub fn is_empty(&self) -> (e: bool)
        ensures
            e == (self@.len() == 0),
    {
        self.paths.len() == 0
    }
}

} // verus!
