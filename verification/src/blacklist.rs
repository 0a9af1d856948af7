//! Permanent exclude list: paths that are never picked again until removed.

use vstd::prelude::*;
use crate::pathset::{has_file, without_file, list_has_file, list_remove_file};
use crate::text::{joined, join_file};

verus! {

broadcast use vstd::std_specs::vec::group_vec_axioms;

#[derive(Debug, Clone)]
pub struct Blacklist {
    pub paths: Vec<String>,
}

impl View for Blacklist {
    type V = Seq<Seq<char>>;

    open spec fn view(&self) -> Seq<Seq<char>> {
        self.paths.deep_view()
    }
}

impl Default for Blacklist {
    fn default() -> (b: Self)
        ensures
            b@ == Seq::<Seq<char>>::empty(),
    {
        Blacklist { paths: Vec::new() }
    }
}

impl Blacklist {
    /// Movie blacklist file inside the data directory.
    pub fn path_movies(data_dir: &str) -> (p: String)
        ensures
            p@ == joined(data_dir@, "blacklist.json"@),
    {
        join_file(data_dir, "blacklist.json")
    }

    /// Image blacklist file inside the data directory.
    pub fn path_images(data_dir: &str) -> (p: String)
        ensures
            p@ == joined(data_dir@, "blacklist_images.json"@),
    {
        join_file(data_dir, "blacklist_images.json")
    }

    /// The listed paths, in order.
    pub fn as_path_set(&self) -> (v: Vec<String>)
        ensures
            v.deep_view() == self@,
    {
        let v = self.paths.clone();
        assert(v.deep_view() =~= self.paths.deep_view());
        v
    }

    /// Is `path` listed (ASCII case-insensitively)?
    pub fn contains(&self, path: &str) -> (r: bool)
        ensures
            r == has_file(self@, path@),
    {
        list_has_file(&self.paths, path)
    }

    /// Lists `path`: older spellings of the same file are dropped and `path`
    /// goes to the end.
    pub fn add(&mut self, path: &str)
        ensures
            final(self)@ == without_file(old(self)@, path@).push(path@),
    {
        list_remove_file(&mut self.paths, path);
        let ghost mid = self.paths.deep_view();
        self.paths.push(String::from_str(path));
        assert(self.paths.deep_view() =~= mid.push(path@));
    }

    /// Unlists every spelling of `path`.
    pub fn remove(&mut self, path: &str)
        ensures
            final(self)@ == without_file(old(self)@, path@),
    {
        list_remove_file(&mut self.paths, path);
    }

    pub fn len(&self) -> (n: usize)
        ensures
            n == self@.len(),
    {
        self.paths.len()
    }
}

} // verus!
