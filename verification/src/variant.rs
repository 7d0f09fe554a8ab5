//! Backend variants and their directory names.
//!
//! A variant is physically present as one directory named `<library>` or
//! `<library>_<variant>`; the directory name is the sole source of truth.
//! Parsing splits on the first underscore: the part before it is the
//! library kind, everything after it is the variant tag (empty when there
//! is no underscore).

use vstd::prelude::*;
use vstd::string::StrSliceExecFns;
use vstd::string::StringExecFns;
use crate::strutil::{concat3, find_char, find_char_from, lemma_find_char_from};

verus! {

/// One pre-built backend variant: a library kind (`cpu`, `cuda`, ...)
/// and an optional capability or version tag.
#[derive(Debug)]
pub struct Variant {
    pub library: String,
    pub variant: String,
}

impl Clone for Variant {
    /// Clones preserve the value.
    fn clone(&self) -> (r: Self)
        ensures
            r == *self,
    {
        Variant { library: self.library.clone(), variant: self.variant.clone() }
    }
}

/// The library kind a directory name denotes: everything before the
/// first underscore.
pub open spec fn parsed_library(name: Seq<char>) -> Seq<char> {
    let u = find_char_from(name, '_', 0);
    if u == -1 {
        name
    } else {
        name.take(u)
    }
}

/// The variant tag a directory name denotes: everything after the first
/// underscore, empty when there is none.
pub open spec fn parsed_variant(name: Seq<char>) -> Seq<char> {
    let u = find_char_from(name, '_', 0);
    if u == -1 {
        Seq::empty()
    } else {
        name.skip(u + 1)
    }
}

/// The directory name a variant owns: the library kind, then, when the
/// tag is not empty, an underscore and the tag.
pub open spec fn dir_name_of(library: Seq<char>, variant: Seq<char>) -> Seq<char> {
    if variant.len() == 0 {
        library
    } else {
        library + "_"@ + variant
    }
}

impl Variant {
    /// Splits a directory name into a variant.
    pub fn parse_dir_name(name: &str) -> (r: Variant)
        ensures
            r.library@ == parsed_library(name@),
            r.variant@ == parsed_variant(name@),
    {
        let n: usize = name.unicode_len();
        proof {
            lemma_find_char_from(name@, '_', 0);
        }
        match find_char(name, '_', 0) {
            Some(u) => {
                proof {
                    assert(name@.subrange(0, u as int) == name@.take(u as int));
                    assert(name@.subrange(u + 1, n as int) == name@.skip(u + 1));
                }
                Variant {
                    library: name.substring_char(0, u).to_owned(),
                    variant: name.substring_char(u + 1, n).to_owned(),
                }
            },
            None => Variant { library: name.to_owned(), variant: String::new() },
        }
    }

    /// The directory name of this variant.
    pub fn dir_name(&self) -> (r: String)
        ensures
            r@ == dir_name_of(self.library@, self.variant@),
    {
        if self.variant.as_str().is_empty() {
            self.library.clone()
        } else {
            concat3(self.library.as_str(), "_", self.variant.as_str())
        }
    }
}

/// Parses a list of directory names into the variant catalog. The scan
/// that produced the names decides which directories qualify; parsing
/// itself never fails.
pub fn catalog_from_names(names: &Vec<String>) -> (r: Vec<Variant>)
    ensures
        r@.len() == names@.len(),
        forall|i: int|
            0 <= i < r@.len() ==> (#[trigger] r@[i]).library@ == parsed_library(names@[i]@)
                && r@[i].variant@ == parsed_variant(names@[i]@),
{
    let mut r: Vec<Variant> = Vec::new();
    let mut i: usize = 0;
    while i < names.len()
        invariant
            i <= names@.len(),
            r@.len() == i,
            forall|k: int|
                0 <= k < i ==> (#[trigger] r@[k]).library@ == parsed_library(names@[k]@)
                    && r@[k].variant@ == parsed_variant(names@[k]@),
        decreases names@.len() - i,
    {
        r.push(Variant::parse_dir_name(names[i].as_str()));
        i += 1;
    }
    r
}

/// Round trip: parsing the directory name of a variant whose library
/// kind holds no underscore gives the variant back.
pub proof fn lemma_dir_name_round_trip(library: Seq<char>, variant: Seq<char>)
    requires
        forall|i: int| 0 <= i < library.len() ==> library[i] != '_',
    ensures
        parsed_library(dir_name_of(library, variant)) == library,
        parsed_variant(dir_name_of(library, variant)) == variant,
{
    reveal_strlit("_");
    let name = dir_name_of(library, variant);
    lemma_find_char_from(name, '_', 0);
    let u = find_char_from(name, '_', 0);
    if variant.len() == 0 {
        assert(u == -1);
        assert(parsed_variant(name) =~= variant);
    } else {
        assert(name[library.len() as int] == '_');
        assert(u != -1);
        assert(forall|k: int| 0 <= k < library.len() ==> name[k] == library[k]);
        assert(u == library.len());
        assert(parsed_library(name) =~= library);
        assert(parsed_variant(name) =~= variant);
    }
}

} // verus!
