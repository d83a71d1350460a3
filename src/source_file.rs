use vstd::prelude::*;

use vstd::string::StringSliceAdditionalSpecFns;

use crate::source_text::{all_ascii, byte_chars, SourceText};

verus! {

/// The paths in `found`, each kept at its first place only.
pub open spec fn first_occurrences(found: Seq<Seq<char>>) -> Seq<Seq<char>>
    decreases found.len(),
{
    if found.len() == 0 {
        Seq::empty()
    } else {
        let kept = first_occurrences(found.drop_last());
        if kept.contains(found.last()) {
            kept
        } else {
            kept.push(found.last())
        }
    }
}

pub open spec fn paths_view(paths: Seq<String>) -> Seq<Seq<char>> {
    paths.map_values(|p: String| p@)
}

/// Where a source file was found. Relative requests are looked up in the
/// include directories in order, and every distinct file found is kept.
pub struct SourcePath {
    full_file_path: String,
    file_exists: bool,
    found_paths: Vec<String>,
}

impl SourcePath {
    /// The path of the file used, empty where none was found.
    pub closed spec fn path(&self) -> Seq<char> {
        self.full_file_path@
    }

    pub closed spec fn is_found(&self) -> bool {
        self.file_exists
    }

    /// Every distinct file that matched the request.
    pub closed spec fn found(&self) -> Seq<Seq<char>> {
        paths_view(self.found_paths@)
    }

    pub fn get_path(&self) -> (r: &String)
        ensures
            r@ == self.path(),
    {
        &self.full_file_path
    }

    pub fn file_exists(&self) -> (r: bool)
        ensures
            r == self.is_found(),
    {
        self.file_exists
    }

    pub fn found_multiple_paths(&self) -> (r: bool)
        ensures
            r == (self.found().len() > 1),
    {
        self.found_paths.len() > 1
    }

    /// The result of a lookup, from the absolute paths of the existing files
    /// that matched it, in the order of the include directories. Paths that
    /// came twice count once; the first one found is used. Where none was
    /// found the file does not exist and the path is empty.
    pub fn from_found_paths(found: Vec<String>) -> (r: SourcePath)
        ensures
            r.found() == first_occurrences(paths_view(found@)),
            r.is_found() == (found@.len() > 0),
            found@.len() > 0 ==> r.path() == found@[0]@,
            found@.len() == 0 ==> r.path() == Seq::<char>::empty(),
    {
        let mut kept: Vec<String> = Vec::new();
        let mut i: usize = 0;
        while i < found.len()
            invariant
                i <= found@.len(),
                paths_view(kept@) == first_occurrences(paths_view(found@.subrange(0, i as int))),
                i > 0 ==> kept@.len() > 0 && kept@[0]@ == found@[0]@,
            decreases found@.len() - i,
        {
            let ghost pre = paths_view(found@.subrange(0, i as int));
            let ghost next = paths_view(found@.subrange(0, i + 1));
            assert(next.drop_last() =~= pre);
            let mut seen = false;
            let mut j: usize = 0;
            while j < kept.len()
                invariant
                    i < found@.len(),
                    j <= kept@.len(),
                    seen == paths_view(kept@).subrange(0, j as int).contains(found@[i as int]@),
                decreases kept@.len() - j,
            {
                let same = kept[j] == found[i];
                proof {
                    let a = paths_view(kept@).subrange(0, j as int);
                    let b = paths_view(kept@).subrange(0, j + 1);
                    assert(b =~= a.push(kept@[j as int]@));
                    if seen {
                        let w = choose|w: int| 0 <= w < a.len() && a[w] == found@[i as int]@;
                        assert(b[w] == found@[i as int]@);
                    }
                    if same {
                        assert(b[j as int] == found@[i as int]@);
                    }
                }
                seen = seen || same;
                j = j + 1;
            }
            assert(paths_view(kept@).subrange(0, kept@.len() as int) =~= paths_view(kept@));
            if !seen {
                let p = found[i].clone();
                kept.push(p);
                assert(paths_view(kept@) =~= first_occurrences(next));
            }
            i = i + 1;
        }
        assert(found@.subrange(0, i as int) =~= found@);
        if found.len() == 0 {
            SourcePath { full_file_path: String::new(), file_exists: false, found_paths: kept }
        } else {
            let first = kept[0].clone();
            SourcePath { full_file_path: first, file_exists: true, found_paths: kept }
        }
    }
}

impl Default for SourcePath {
    /// The result of a lookup that found nothing.
    fn default() -> (r: SourcePath)
        ensures
            !r.is_found(),
            r.path() == Seq::<char>::empty(),
            r.found() == Seq::<Seq<char>>::empty(),
    {
        let r = SourcePath {
            full_file_path: String::new(),
            file_exists: false,
            found_paths: Vec::new(),
        };
        assert(r.found() =~= Seq::<Seq<char>>::empty());
        r
    }
}

/// Access to a source file's text and the path it came from.
pub trait ISourceFile {
    fn get_text(&self) -> &SourceText;

    fn get_text_mut(&mut self) -> &mut SourceText;

    fn get_file_path(&self) -> &String;
}

/// A source text together with where it was found.
pub struct SourceFile {
    text: SourceText,
    source_path: SourcePath,
}

impl SourceFile {
    pub closed spec fn text(&self) -> SourceText {
        self.text
    }

    pub closed spec fn source_path(&self) -> SourcePath {
        self.source_path
    }

    /// A file held in memory, with no path.
    pub fn from_text(text: &str) -> (r: SourceFile)
        ensures
            r.text().bytes() == text.spec_bytes(),
            r.text().index() == 0,
            text.is_ascii() ==> all_ascii(r.text().bytes()) && byte_chars(r.text().bytes())
                == text@,
            !r.source_path().is_found(),
            r.source_path().path() == Seq::<char>::empty(),
    {
        SourceFile { text: SourceText::from_str(text), source_path: SourcePath::default() }
    }

    /// The file that a lookup gave, with what reading it gave (`None` where it
    /// could not be read). A file that was not found, or not read, has an
    /// empty text.
    pub fn from_contents(source_path: SourcePath, contents: Option<Vec<u8>>) -> (r: SourceFile)
        ensures
            r.source_path() == source_path,
            r.text().index() == 0,
            r.text().bytes() == match contents {
                Some(b) => if source_path.is_found() {
                    b@
                } else {
                    Seq::<u8>::empty()
                },
                None => Seq::<u8>::empty(),
            },
    {
        let bytes = match contents {
            Some(b) => if source_path.file_exists() {
                b
            } else {
                Vec::new()
            },
            None => Vec::new(),
        };
        SourceFile { text: SourceText::from_bytes(bytes), source_path }
    }
}

impl ISourceFile for SourceFile {
    fn get_text(&self) -> (r: &SourceText)
        ensures
            *r == self.text(),
    {
        &self.text
    }

    fn get_text_mut(&mut self) -> (r: &mut SourceText)
        ensures
            *r == old(self).text(),
            final(self).text() == *final(r),
            final(self).source_path() == old(self).source_path(),
    {
        &mut self.text
    }

    fn get_file_path(&self) -> (r: &String)
        ensures
            r@ == self.source_path().path(),
    {
        self.source_path.get_path()
    }
}

} // verus!
