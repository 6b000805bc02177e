//! Paths below a directory.

use vstd::prelude::*;

use crate::text::joined;

verus! {

/// A path: a directory as the caller names it, and the names that are joined to
/// it, one below the other.
#[derive(Debug, PartialEq, Eq)]
pub struct EnvPath {
    pub base: String,
    pub names: Vec<String>,
}

/// The contents of an [`EnvPath`].
pub struct EnvPathView {
    pub base: Seq<char>,
    pub names: Seq<Seq<char>>,
}

impl View for EnvPath {
    type V = EnvPathView;

    open spec fn view(&self) -> EnvPathView {
        EnvPathView { base: self.base@, names: crate::text::texts(self.names@) }
    }
}

impl EnvPathView {
    /// The path one level down.
    pub open spec fn join(self, name: Seq<char>) -> EnvPathView {
        EnvPathView { base: self.base, names: self.names.push(name) }
    }
}

/// A directory, with nothing joined to it.
pub open spec fn directory(base: Seq<char>) -> EnvPathView {
    EnvPathView { base, names: Seq::empty() }
}

/// Copies of a list of strings.
pub fn copied(strings: &Vec<String>) -> (r: Vec<String>)
    ensures
        crate::text::texts(r@) == crate::text::texts(strings@),
{
    let mut copies: Vec<String> = Vec::new();
    for i in 0..strings.len()
        invariant
            copies@.len() == i,
            forall|j: int| 0 <= j < i ==> (#[trigger] copies@[j])@ == strings@[j]@,
    {
        copies.push(strings[i].clone());
    }
    assert(crate::text::texts(copies@) == crate::text::texts(strings@));
    copies
}

impl EnvPath {
    /// A directory, with nothing joined to it.
    pub fn new(base: &str) -> (r: EnvPath)
        ensures
            r@ == directory(base@),
    {
        let path: EnvPath = EnvPath { base: base.to_owned(), names: Vec::new() };
        assert(crate::text::texts(path.names@) == Seq::<Seq<char>>::empty());
        path
    }

    /// The path one level down.
    pub fn join(&self, name: &str) -> (r: EnvPath)
        ensures
            r@ == self@.join(name@),
    {
        let mut names: Vec<String> = copied(&self.names);
        let ghost before = names@;
        names.push(name.to_owned());
        assert(crate::text::texts(names@) == crate::text::texts(before).push(name@));
        EnvPath { base: self.base.clone(), names }
    }

    /// The same path.
    pub fn copy(&self) -> (r: EnvPath)
        ensures
            r@ == self@,
    {
        EnvPath { base: self.base.clone(), names: copied(&self.names) }
    }
}

/// The name of a program file. `extension` is that of programs on the platform,
/// which may be empty.
pub open spec fn program_name(stem: Seq<char>, extension: Seq<char>) -> Seq<char> {
    if extension.len() == 0 {
        stem
    } else {
        stem + seq!['.'] + extension
    }
}

/// The name of a program file.
pub fn program_file(stem: &str, extension: &str) -> (r: String)
    ensures
        r@ == program_name(stem@, extension@),
{
    if extension.is_empty() {
        return stem.to_owned();
    }
    proof {
        reveal_strlit(".");
        assert("."@ == seq!['.']);
    }
    let dotted: String = joined(stem, ".");
    joined(dotted.as_str(), extension)
}

} // verus!
