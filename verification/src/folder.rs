//! The game folder as far as Remove is concerned: the files and folders in it,
//! by their paths relative to it.
use vstd::prelude::*;
use crate::outside::{unicode_upper, upper_of};
use crate::text::{chars, copied, equal, lower_char, lowered_char, opt_text, texts};

verus! {

/// A file: its path, with slashes, and its text where it is text.
#[derive(Debug)]
pub struct FileEntry {
    pub path: String,
    pub text: Option<String>,
}

/// A [`FileEntry`] as characters.
pub struct File {
    pub path: Seq<char>,
    pub text: Option<Seq<char>>,
}

impl View for FileEntry {
    type V = File;

    open spec fn view(&self) -> File {
        File { path: self.path@, text: opt_text(self.text) }
    }
}

/// A folder. Paths of files and folders are relative to it; whether case
/// matters in them is up to the file system.
#[derive(Debug)]
pub struct Folder {
    pub files: Vec<FileEntry>,
    pub dirs: Vec<String>,
    pub nocase: bool,
}

/// A [`Folder`] as values.
pub struct Tree {
    pub files: Seq<File>,
    pub dirs: Seq<Seq<char>>,
    pub nocase: bool,
}

impl View for Folder {
    type V = Tree;

    open spec fn view(&self) -> Tree {
        Tree { files: entries(self.files@), dirs: texts(self.dirs@), nocase: self.nocase }
    }
}

pub open spec fn entries(v: Seq<FileEntry>) -> Seq<File> {
    Seq::new(v.len(), |i: int| v[i]@)
}

/// What a character is compared by where case does not matter: characters are
/// folded one for one. Beyond ASCII that is the upper case, where it is a single
/// character beyond ASCII too; a character with another one is its own.
pub open spec fn fold_char(c: char) -> char {
    if c as int <= 127 {
        lower_char(c)
    } else if unicode_upper(c).len() == 1 && unicode_upper(c)[0] as int > 127 {
        unicode_upper(c)[0]
    } else {
        c
    }
}

pub open spec fn fold(s: Seq<char>) -> Seq<char> {
    Seq::new(s.len(), |i: int| fold_char(s[i]))
}

/// Two paths name the same file. Where case does not matter it does not beyond
/// ASCII either.
pub open spec fn same_path(nocase: bool, a: Seq<char>, b: Seq<char>) -> bool {
    if nocase {
        fold(a) == fold(b)
    } else {
        a == b
    }
}

impl Tree {
    /// No two files have the same path.
    pub open spec fn wf(self) -> bool {
        forall|i: int, j: int|
            #![trigger self.files[i], self.files[j]]
            0 <= i < j < self.files.len() ==> !same_path(
                self.nocase,
                self.files[i].path,
                self.files[j].path,
            )
    }

    /// There is a file of that path.
    pub open spec fn has(self, path: Seq<char>) -> bool {
        exists|i: int|
            0 <= i < self.files.len() && same_path(
                self.nocase,
                (#[trigger] self.files[i]).path,
                path,
            )
    }

    /// There is a folder of that path.
    pub open spec fn has_dir(self, path: Seq<char>) -> bool {
        exists|i: int|
            0 <= i < self.dirs.len() && same_path(self.nocase, #[trigger] self.dirs[i], path)
    }

    /// The text of the first file of that path.
    pub open spec fn text(self, path: Seq<char>) -> Option<Seq<char>>
        decreases self.files.len(),
    {
        if self.files.len() == 0 {
            None
        } else if same_path(self.nocase, self.files[0].path, path) {
            self.files[0].text
        } else {
            (Tree { files: self.files.skip(1), ..self }).text(path)
        }
    }

    /// The tree without the file of that path.
    pub open spec fn without(self, path: Seq<char>) -> Tree {
        Tree {
            files: self.files.filter(|f: File| !same_path(self.nocase, f.path, path)),
            ..self
        }
    }

    /// The tree without the folder of that path.
    pub open spec fn without_dir(self, path: Seq<char>) -> Tree {
        Tree {
            dirs: self.dirs.filter(|d: Seq<char>| !same_path(self.nocase, d, path)),
            ..self
        }
    }

    /// The tree without that folder and the folders below it.
    pub open spec fn without_dirs_in(self, path: Seq<char>) -> Tree {
        Tree {
            dirs: self.dirs.filter(
                |d: Seq<char>| !same_path(self.nocase, d, path) && !below(self.nocase, d, path),
            ),
            ..self
        }
    }

    /// Something lies below that folder.
    pub open spec fn holds_in(self, dir: Seq<char>) -> bool {
        ||| self.holds_file_in(dir)
        ||| exists|i: int|
            0 <= i < self.dirs.len() && below(self.nocase, #[trigger] self.dirs[i], dir)
    }

    /// A file lies below that folder.
    pub open spec fn holds_file_in(self, dir: Seq<char>) -> bool {
        exists|i: int|
            0 <= i < self.files.len() && below(self.nocase, (#[trigger] self.files[i]).path, dir)
    }
}

/// The path lies below the folder `dir`.
pub open spec fn below(nocase: bool, path: Seq<char>, dir: Seq<char>) -> bool {
    &&& path.len() > dir.len()
    &&& path[dir.len() as int] == '/'
    &&& same_path(nocase, path.take(dir.len() as int), dir)
}

/// The path has no slash.
pub open spec fn one_part(path: Seq<char>) -> bool {
    forall|j: int| 0 <= j < path.len() ==> path[j] != '/'
}

/// The name of what stands directly in the folder `dir`; the empty path is the
/// game folder itself.
pub open spec fn child_name(nocase: bool, path: Seq<char>, dir: Seq<char>) -> Option<Seq<char>> {
    let name = if dir.len() == 0 {
        path
    } else {
        path.skip(dir.len() as int + 1)
    };
    if (dir.len() == 0 || below(nocase, path, dir)) && one_part(name) {
        Some(name)
    } else {
        None
    }
}

// ── the executable side ────────────────────────────────────────────

fn folded_char(c: char) -> (r: char)
    ensures
        r == fold_char(c),
{
    if c <= '\u{7F}' {
        lowered_char(c)
    } else {
        let u = upper_of(c);
        let v = chars(u.as_str());
        if v.len() == 1 && v[0] > '\u{7F}' {
            v[0]
        } else {
            c
        }
    }
}

fn folded(s: &[char]) -> (r: Vec<char>)
    ensures
        r@ == fold(s@),
{
    let mut out: Vec<char> = Vec::new();
    let mut i: usize = 0;
    while i < s.len()
        invariant
            i <= s@.len(),
            out@ == fold(s@).take(i as int),
        decreases s@.len() - i,
    {
        out.push(folded_char(s[i]));
        i = i + 1;
        assert(out@ =~= fold(s@).take(i as int));
    }
    assert(out@ =~= fold(s@));
    out
}

pub fn is_same_path(nocase: bool, a: &[char], b: &[char]) -> (r: bool)
    ensures
        r == same_path(nocase, a@, b@),
{
    if nocase {
        let (x, y) = (folded(a), folded(b));
        equal(x.as_slice(), y.as_slice())
    } else {
        equal(a, b)
    }
}

fn is_below(nocase: bool, path: &[char], dir: &[char]) -> (r: bool)
    ensures
        r == below(nocase, path@, dir@),
{
    let n: usize = dir.len();
    if path.len() <= n || path[n] != '/' {
        return false;
    }
    let start = vstd::slice::slice_subrange(path, 0, n);
    assert(start@ =~= path@.take(n as int));
    is_same_path(nocase, start, dir)
}

/// The name of what stands directly in the folder `dir`.
pub fn child_of(nocase: bool, path: &str, dir: &str) -> (r: Option<Vec<char>>)
    ensures
        match r {
            Some(n) => child_name(nocase, path@, dir@) == Some(n@),
            None => child_name(nocase, path@, dir@) is None,
        },
{
    let p = chars(path);
    let d = chars(dir);
    let n: usize = d.len();
    let len: usize = p.len();
    if n > 0 && !is_below(nocase, p.as_slice(), d.as_slice()) {
        return None;
    }
    let start: usize = if n == 0 {
        0
    } else {
        n + 1
    };
    let name = vstd::slice::slice_subrange(p.as_slice(), start, len);
    assert(n == 0 ==> name@ =~= path@);
    assert(n > 0 ==> name@ =~= path@.skip(n + 1));
    let mut i: usize = 0;
    while i < name.len()
        invariant
            i <= name@.len(),
            name@ == (if dir@.len() == 0 {
                path@
            } else {
                path@.skip(dir@.len() as int + 1)
            }),
            forall|j: int| 0 <= j < i ==> name@[j] != '/',
        decreases name@.len() - i,
    {
        if name[i] == '/' {
            assert(!one_part(name@));
            return None;
        }
        i = i + 1;
    }
    Some(copied(name))
}

fn copy_entry(e: &FileEntry) -> (r: FileEntry)
    ensures
        r@ == e@,
{
    let text = match &e.text {
        Some(t) => Some(t.as_str().to_owned()),
        None => None,
    };
    FileEntry { path: e.path.as_str().to_owned(), text }
}

impl Folder {
    pub fn is_file(&self, path: &str) -> (r: bool)
        ensures
            r == self@.has(path@),
    {
        let p = chars(path);
        let mut i: usize = 0;
        while i < self.files.len()
            invariant
                i <= self.files@.len(),
                p@ == path@,
                forall|j: int|
                    0 <= j < i ==> !same_path(
                        self.nocase,
                        (#[trigger] self@.files[j]).path,
                        path@,
                    ),
            decreases self.files@.len() - i,
        {
            let f = chars(self.files[i].path.as_str());
            assert(self@.files[i as int].path == f@);
            if is_same_path(self.nocase, f.as_slice(), p.as_slice()) {
                return true;
            }
            i = i + 1;
        }
        false
    }

    pub fn is_dir(&self, path: &str) -> (r: bool)
        ensures
            r == self@.has_dir(path@),
    {
        let p = chars(path);
        let mut i: usize = 0;
        while i < self.dirs.len()
            invariant
                i <= self.dirs@.len(),
                p@ == path@,
                forall|j: int|
                    0 <= j < i ==> !same_path(self.nocase, #[trigger] self@.dirs[j], path@),
            decreases self.dirs@.len() - i,
        {
            let f = chars(self.dirs[i].as_str());
            assert(self@.dirs[i as int] == f@);
            if is_same_path(self.nocase, f.as_slice(), p.as_slice()) {
                return true;
            }
            i = i + 1;
        }
        false
    }

    /// The text of a file, where it is there and is text.
    pub fn read(&self, path: &str) -> (r: Option<String>)
        ensures
            opt_text(r) == self@.text(path@),
    {
        let p = chars(path);
        let mut i: usize = 0;
        let ghost all = self@;
        assert(all.files.skip(0) =~= all.files);
        assert((Tree { files: all.files.skip(0), ..all }) == all);
        while i < self.files.len()
            invariant
                i <= self.files@.len(),
                p@ == path@,
                all == self@,
                (Tree { files: all.files.skip(i as int), ..all }).text(path@) == all.text(path@),
            decreases self.files@.len() - i,
        {
            let f = chars(self.files[i].path.as_str());
            proof {
                assert(all.files.skip(i as int)[0] == self.files@[i as int]@);
                assert(all.files.skip(i as int).skip(1) =~= all.files.skip(i + 1));
            }
            if is_same_path(self.nocase, f.as_slice(), p.as_slice()) {
                return match &self.files[i].text {
                    Some(t) => Some(t.as_str().to_owned()),
                    None => None,
                };
            }
            i = i + 1;
        }
        None
    }

    /// Something lies below that folder.
    pub fn holds_in_dir(&self, dir: &str) -> (r: bool)
        ensures
            r == self@.holds_in(dir@),
    {
        if self.holds_file(dir) {
            return true;
        }
        let d = chars(dir);
        let mut i: usize = 0;
        while i < self.dirs.len()
            invariant
                i <= self.dirs@.len(),
                d@ == dir@,
                forall|j: int| 0 <= j < i ==> !below(self.nocase, #[trigger] self@.dirs[j], dir@),
            decreases self.dirs@.len() - i,
        {
            let f = chars(self.dirs[i].as_str());
            assert(self@.dirs[i as int] == f@);
            if is_below(self.nocase, f.as_slice(), d.as_slice()) {
                return true;
            }
            i = i + 1;
        }
        false
    }

    /// A file lies below that folder.
    pub fn holds_file(&self, dir: &str) -> (r: bool)
        ensures
            r == self@.holds_file_in(dir@),
    {
        let d = chars(dir);
        let mut i: usize = 0;
        while i < self.files.len()
            invariant
                i <= self.files@.len(),
                d@ == dir@,
                forall|j: int|
                    0 <= j < i ==> !below(self.nocase, (#[trigger] self@.files[j]).path, dir@),
            decreases self.files@.len() - i,
        {
            let f = chars(self.files[i].path.as_str());
            assert(self@.files[i as int].path == f@);
            if is_below(self.nocase, f.as_slice(), d.as_slice()) {
                return true;
            }
            i = i + 1;
        }
        false
    }

    /// Takes a file out.
    pub fn remove_file(&mut self, path: &str)
        ensures
            final(self)@ == old(self)@.without(path@),
    {
        let p = chars(path);
        let ghost all = self@;
        let ghost f = |e: File| !same_path(all.nocase, e.path, path@);
        let mut kept: Vec<FileEntry> = Vec::new();
        let mut i: usize = 0;
        proof {
            reveal(Seq::filter);
            assert(all.files.take(0).filter(f) =~= Seq::empty());
            assert(entries(kept@) =~= Seq::empty());
        }
        while i < self.files.len()
            invariant
                i <= self.files@.len(),
                p@ == path@,
                all == self@,
                f == (|e: File| !same_path(all.nocase, e.path, path@)),
                entries(kept@) == all.files.take(i as int).filter(f),
            decreases self.files@.len() - i,
        {
            let e = chars(self.files[i].path.as_str());
            proof {
                reveal(Seq::filter);
                assert(all.files.take(i + 1).drop_last() =~= all.files.take(i as int));
                assert(all.files.take(i + 1).last() == self.files@[i as int]@);
            }
            if !is_same_path(self.nocase, e.as_slice(), p.as_slice()) {
                let c = copy_entry(&self.files[i]);
                let ghost was = entries(kept@);
                kept.push(c);
                assert(entries(kept@) =~= was.push(c@));
            }
            i = i + 1;
        }
        assert(all.files.take(all.files.len() as int) =~= all.files);
        self.files = kept;
    }

    /// Takes a folder out.
    pub fn remove_dir(&mut self, path: &str)
        ensures
            final(self)@ == old(self)@.without_dir(path@),
    {
        let p = chars(path);
        let ghost all = self@;
        let ghost f = |d: Seq<char>| !same_path(all.nocase, d, path@);
        let mut kept: Vec<String> = Vec::new();
        let mut i: usize = 0;
        proof {
            reveal(Seq::filter);
            assert(all.dirs.take(0).filter(f) =~= Seq::empty());
            assert(texts(kept@) =~= Seq::empty());
        }
        while i < self.dirs.len()
            invariant
                i <= self.dirs@.len(),
                p@ == path@,
                all == self@,
                f == (|d: Seq<char>| !same_path(all.nocase, d, path@)),
                texts(kept@) == all.dirs.take(i as int).filter(f),
            decreases self.dirs@.len() - i,
        {
            let e = chars(self.dirs[i].as_str());
            proof {
                reveal(Seq::filter);
                assert(all.dirs.take(i + 1).drop_last() =~= all.dirs.take(i as int));
                assert(all.dirs.take(i + 1).last() == e@);
            }
            if !is_same_path(self.nocase, e.as_slice(), p.as_slice()) {
                let c = self.dirs[i].as_str().to_owned();
                proof {
                    crate::lines::lemma_texts_push(kept@, c);
                }
                kept.push(c);
            }
            i = i + 1;
        }
        assert(all.dirs.take(all.dirs.len() as int) =~= all.dirs);
        self.dirs = kept;
    }

    /// Takes a folder out, with the folders below it.
    pub fn remove_dirs_in(&mut self, path: &str)
        ensures
            final(self)@ == old(self)@.without_dirs_in(path@),
    {
        let p = chars(path);
        let ghost all = self@;
        let ghost f = |d: Seq<char>|
            !same_path(all.nocase, d, path@) && !below(all.nocase, d, path@);
        let mut kept: Vec<String> = Vec::new();
        let mut i: usize = 0;
        proof {
            reveal(Seq::filter);
            assert(all.dirs.take(0).filter(f) =~= Seq::empty());
            assert(texts(kept@) =~= Seq::empty());
        }
        while i < self.dirs.len()
            invariant
                i <= self.dirs@.len(),
                p@ == path@,
                all == self@,
                f == (|d: Seq<char>|
                    !same_path(all.nocase, d, path@) && !below(all.nocase, d, path@)),
                texts(kept@) == all.dirs.take(i as int).filter(f),
            decreases self.dirs@.len() - i,
        {
            let e = chars(self.dirs[i].as_str());
            proof {
                reveal(Seq::filter);
                assert(all.dirs.take(i + 1).drop_last() =~= all.dirs.take(i as int));
                assert(all.dirs.take(i + 1).last() == e@);
            }
            if !is_same_path(self.nocase, e.as_slice(), p.as_slice()) && !is_below(
                self.nocase,
                e.as_slice(),
                p.as_slice(),
            ) {
                let c = self.dirs[i].as_str().to_owned();
                proof {
                    crate::lines::lemma_texts_push(kept@, c);
                }
                kept.push(c);
            }
            i = i + 1;
        }
        assert(all.dirs.take(all.dirs.len() as int) =~= all.dirs);
        self.dirs = kept;
    }
}

} // verus!
