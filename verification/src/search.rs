//! Choosing the image files among the entries of a directory, by extension.
//! The caller walks the directory and hands in what it came upon, the
//! entries that it could not read too; which entries count is decided here.

use vstd::prelude::*;
use vstd::utf8::encode_utf8_decode_utf8;

verus! {

/// The extensions that a search starts with.
pub open spec fn default_exts<'a>() -> Seq<&'a str> {
    seq!["jpg", "png", "gif"]
}

/// Whether two strings hold the same text.
pub fn same_text(a: &str, b: &str) -> (same: bool)
    ensures
        same == (a@ == b@),
{
    let left = a.as_bytes();
    let right = b.as_bytes();
    proof {
        encode_utf8_decode_utf8(a@);
        encode_utf8_decode_utf8(b@);
    }
    if left.len() != right.len() {
        return false;
    }
    let mut i: usize = 0;
    while i < left.len()
        invariant
            i <= left@.len(),
            left@.len() == right@.len(),
            forall|j: int| 0 <= j < i ==> left@[j] == right@[j],
            a@ == b@ ==> left@ == right@,
        decreases left@.len() - i,
    {
        if left[i] != right[i] {
            return false;
        }
        i += 1;
    }
    proof {
        assert(left@ =~= right@);
    }
    true
}

/// What a directory entry is to the proofs.
pub struct CandidateView {
    pub path: Seq<char>,
    pub extension: Option<Seq<char>>,
}

/// An entry that a walk of the directory came upon: its path, and the
/// extension of its file name where it has one.
#[derive(Debug, Clone)]
pub struct Candidate {
    pub path: String,
    pub extension: Option<String>,
}

impl View for Candidate {
    type V = CandidateView;

    open spec fn view(&self) -> CandidateView {
        CandidateView {
            path: self.path@,
            extension: match self.extension {
                Some(e) => Some(e@),
                None => None,
            },
        }
    }
}

/// What a walk came upon, entry by entry: the entry, or nothing where the
/// entry could not be read.
pub open spec fn candidate_views(entries: Seq<Result<Candidate, String>>) -> Seq<
    Option<CandidateView>,
> {
    entries.map_values(
        |e: Result<Candidate, String>|
            match e {
                Ok(c) => Some(c@),
                Err(_) => None,
            },
    )
}

/// The texts of a sequence of paths.
pub open spec fn texts(paths: Seq<String>) -> Seq<Seq<char>> {
    paths.map_values(|p: String| p@)
}

/// The extension is there and is one of `exts`, letter for letter.
pub open spec fn accepted(exts: Seq<&str>, extension: Option<Seq<char>>) -> bool {
    extension matches Some(e) && exists|i: int| 0 <= i < exts.len() && (#[trigger] exts[i])@ == e
}

/// The paths of the entries that could be read and whose extension is
/// accepted, in the order of the entries. An entry that could not be read is
/// passed over.
pub open spec fn selected(exts: Seq<&str>, entries: Seq<Option<CandidateView>>) -> Seq<Seq<char>>
    decreases entries.len(),
{
    if entries.len() == 0 {
        Seq::empty()
    } else {
        let before = selected(exts, entries.drop_last());
        match entries.last() {
            Some(entry) => if accepted(exts, entry.extension) {
                before.push(entry.path)
            } else {
                before
            },
            None => before,
        }
    }
}

/// A helper for searching for image files within a directory.
#[derive(Debug, Clone)]
pub struct ImageSearch<'a> {
    /// The directory to search.
    pub dir: &'a str,
    /// If the search should visit subdirectories.
    pub recursive: bool,
    /// The extensions to match.
    pub exts: Vec<&'a str>,
}

impl<'a> ImageSearch<'a> {
    /// Starts a search of the given directory, with the default extensions
    /// and without visiting subdirectories.
    pub fn with_dir(dir: &'a str) -> (search: ImageSearch<'a>)
        ensures
            search.dir == dir,
            !search.recursive,
            search.exts@ == default_exts(),
    {
        let mut exts: Vec<&'a str> = Vec::new();
        exts.push("jpg");
        exts.push("png");
        exts.push("gif");
        assert(exts@ =~= default_exts());
        ImageSearch { dir, recursive: false, exts }
    }

    /// Sets whether subdirectories are visited, and hands `self` back for chaining.
    pub fn recursive(&mut self, recursive: bool) -> (search: &mut ImageSearch<'a>)
        ensures
            search.recursive == recursive,
            search.dir == old(self).dir,
            search.exts == old(self).exts,
            *final(self) == *final(search),
    {
        self.recursive = recursive;
        self
    }

    /// Adds an extension to the list, and hands `self` back for chaining.
    pub fn ext(&mut self, ext: &'a str) -> (search: &mut ImageSearch<'a>)
        ensures
            search.exts@ == old(self).exts@.push(ext),
            search.dir == old(self).dir,
            search.recursive == old(self).recursive,
            *final(self) == *final(search),
    {
        self.exts.push(ext);
        self
    }

    /// Adds all the extensions of `exts` to the list, in their order, and
    /// hands `self` back for chaining.
    pub fn exts(&mut self, exts: &[&'a str]) -> (search: &mut ImageSearch<'a>)
        ensures
            search.exts@ == old(self).exts@ + exts@,
            search.dir == old(self).dir,
            search.recursive == old(self).recursive,
            *final(self) == *final(search),
    {
        let mut i: usize = 0;
        while i < exts.len()
            invariant
                i <= exts@.len(),
                self.exts@ == old(self).exts@ + exts@.take(i as int),
                self.dir == old(self).dir,
                self.recursive == old(self).recursive,
            decreases exts@.len() - i,
        {
            self.exts.push(exts[i]);
            proof {
                assert(exts@.take(i + 1) == exts@.take(i as int).push(exts@[i as int]));
            }
            i += 1;
        }
        proof {
            assert(exts@.take(exts@.len() as int) == exts@);
        }
        self
    }

    /// Whether a file with the given extension counts as an image: the
    /// extension must be there and be one of the list, letter for letter.
    pub fn accepts(&self, extension: &Option<String>) -> (accepted: bool)
        ensures
            accepted == self::accepted(
                self.exts@,
                match *extension {
                    Some(e) => Some(e@),
                    None => None,
                },
            ),
    {
        match extension {
            None => false,
            Some(e) => {
                let mut i: usize = 0;
                while i < self.exts.len()
                    invariant
                        i <= self.exts@.len(),
                        *extension == Some(*e),
                        forall|j: int| 0 <= j < i ==> (#[trigger] self.exts@[j])@ != e@,
                    decreases self.exts@.len() - i,
                {
                    if same_text(self.exts[i], e.as_str()) {
                        assert(self.exts@[i as int]@ == e@);
                        return true;
                    }
                    i += 1;
                }
                false
            },
        }
    }

    /// Chooses, among the entries that a walk of `self.dir` came upon, the
    /// paths of those whose extension is in the list, in the order of the
    /// entries. An entry that the walk could not read comes as the reason
    /// why, and is passed over without a word.
    pub fn search(self, entries: Vec<Result<Candidate, String>>) -> (paths: Vec<String>)
        ensures
            texts(paths@) == selected(self.exts@, candidate_views(entries@)),
    {
        let ghost all = candidate_views(entries@);
        let mut paths: Vec<String> = Vec::new();
        for entry in it: entries
            invariant
                candidate_views(it.seq()) == all,
                texts(paths@) == selected(self.exts@, all.take(it.index() as int)),
        {
            proof {
                let next = all.take(it.index() + 1);
                assert(next.drop_last() == all.take(it.index() as int));
                assert(next.last() == candidate_views(it.seq())[it.index() as int]);
            }
            if let Ok(found) = entry {
                if self.accepts(&found.extension) {
                    let ghost before = paths@;
                    paths.push(found.path);
                    proof {
                        assert(texts(paths@) == texts(before).push(found.path@));
                    }
                }
            }
        }
        proof {
            assert(all.take(all.len() as int) == all);
        }
        paths
    }
}

} // verus!
