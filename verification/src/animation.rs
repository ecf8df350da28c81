//! The set of animation files and the rotation through them.
//!
//! The rotator holds the files that a scan of the animation directory found, each
//! with its play time, and which of them is active. Reading the directory and the
//! files, and writing the target file, are the caller's; the rotator decides which
//! file is active and which file must be written next.
use vstd::prelude::*;

use rand::seq::SliceRandom;

use crate::order::{sort_strings, sorted_strings};
use crate::text::{
    chars_eq_ignore_ascii_case, chars_equal, chars_of, eq_ignore_ascii_case, lemma_eq_ignore_ascii_case,
    opt_view, same_up_to_ascii_case,
};

verus! {

/// An animation file with its effective play time.
pub struct AnimationEntry {
    pub path: String,
    pub duration_ms: u64,
}

/// What a scan found of one animation file: its path, the play time it declares
/// (`None` where it declares none or cannot be read), and its bytes (`None` where
/// it cannot be read).
pub struct ScannedFile {
    pub path: String,
    pub duration_ms: Option<u64>,
    pub content: Option<Vec<u8>>,
}

/// Why a rotator could not be built.
#[derive(Debug)]
pub enum RotatorError {
    /// The animation directory (named here) could not be read.
    ScanFailed(String),
    /// The animation directory (named here) holds no `.kdl` file.
    NoAnimationFiles(String),
}

impl RotatorError {
    /// The message that reports the error.
    pub fn message(&self) -> (r: String)
        ensures
            match self {
                RotatorError::ScanFailed(d) => r@ == "Failed to read animation directory: "@ + d@,
                RotatorError::NoAnimationFiles(d) => r@ == "No .kdl files found in "@ + d@,
            },
    {
        match self {
            RotatorError::ScanFailed(d) => {
                let mut r = "Failed to read animation directory: ".to_owned();
                r.append(d.as_str());
                r
            },
            RotatorError::NoAnimationFiles(d) => {
                let mut r = "No .kdl files found in ".to_owned();
                r.append(d.as_str());
                r
            },
        }
    }
}

/// The name of the result of `Path::file_stem` (as UTF-8): the file name without
/// its last extension.
pub uninterp spec fn spec_file_stem(path: Seq<char>) -> Option<Seq<char>>;

/// The name of the result of `Path::extension` (as UTF-8).
pub uninterp spec fn spec_path_extension(path: Seq<char>) -> Option<Seq<char>>;

/// `Path::file_stem`, as a string.
#[verifier::external_body]
fn path_file_stem(path: &str) -> (r: Option<String>)
    ensures
        opt_view(r) == spec_file_stem(path@),
{
    std::path::Path::new(path).file_stem().and_then(|s| s.to_str()).map(|s| s.to_string())
}

/// `Path::extension`, as a string. A path with an extension has a file name, and so
/// a stem (`Path::file_stem` is `None` only without a file name).
#[verifier::external_body]
fn path_extension(path: &str) -> (r: Option<String>)
    ensures
        opt_view(r) == spec_path_extension(path@),
        r is Some ==> spec_file_stem(path@) is Some,
{
    std::path::Path::new(path).extension().and_then(|s| s.to_str()).map(|s| s.to_string())
}

/// `SliceRandom::shuffle` with the thread's generator: puts the entries in a random
/// order. Of the order nothing is stated; the entries stay the same ones.
#[verifier::external_body]
fn shuffle_entries(v: &mut Vec<AnimationEntry>)
    ensures
        final(v)@.len() == old(v)@.len(),
        final(v)@.to_multiset() == old(v)@.to_multiset(),
{
    v.shuffle(&mut rand::thread_rng());
}

/// The extension of animation files.
pub open spec fn kdl_extension() -> Seq<char> {
    seq!['k', 'd', 'l']
}

/// The paths among `paths` whose extension is `kdl`, in the order given.
pub open spec fn kdl_paths(paths: Seq<String>) -> Seq<String> {
    paths.filter(|p: String| spec_path_extension(p@) == Some(kdl_extension()))
}

/// The view of optional bytes.
pub open spec fn opt_bytes(o: Option<Vec<u8>>) -> Option<Seq<u8>> {
    match o {
        Some(v) => Some(v@),
        None => None,
    }
}

/// The entry that a scanned file makes, with `fallback` as its play time where it
/// declares none.
pub open spec fn entry_of(f: ScannedFile, fallback: u64) -> AnimationEntry {
    AnimationEntry {
        path: f.path,
        duration_ms: match f.duration_ms {
            Some(d) => d,
            None => fallback,
        },
    }
}

/// The entries that a scan makes, in scan order.
pub open spec fn entries_of(scan: Seq<ScannedFile>, fallback: u64) -> Seq<AnimationEntry> {
    scan.map_values(|f: ScannedFile| entry_of(f, fallback))
}

/// The first index at or after `j` of a scanned file with path `path`.
pub open spec fn scan_index_from(scan: Seq<ScannedFile>, path: Seq<char>, j: int) -> Option<int>
    decreases scan.len() - j,
{
    if j < 0 || j >= scan.len() {
        None
    } else if scan[j].path@ == path {
        Some(j)
    } else {
        scan_index_from(scan, path, j + 1)
    }
}

/// The bytes that the scan read of the file at `path`.
pub open spec fn content_of(scan: Seq<ScannedFile>, path: Seq<char>) -> Option<Seq<u8>> {
    match scan_index_from(scan, path, 0) {
        Some(j) => opt_bytes(scan[j].content),
        None => None,
    }
}

/// The first index at or after `i` of an entry whose file holds `target`.
pub open spec fn resume_from(
    entries: Seq<AnimationEntry>,
    scan: Seq<ScannedFile>,
    target: Seq<u8>,
    i: int,
) -> Option<int>
    decreases entries.len() - i,
{
    if i < 0 || i >= entries.len() {
        None
    } else if content_of(scan, entries[i].path@) == Some(target) {
        Some(i)
    } else {
        resume_from(entries, scan, target, i + 1)
    }
}

/// The first entry whose file holds what the target file holds, if the target
/// could be read.
pub open spec fn resume_index(
    entries: Seq<AnimationEntry>,
    scan: Seq<ScannedFile>,
    target: Option<Seq<u8>>,
) -> Option<int> {
    match target {
        Some(t) => resume_from(entries, scan, t, 0),
        None => None,
    }
}

/// The first index at or after `i` of an entry with path `path`.
pub open spec fn path_index_from(entries: Seq<AnimationEntry>, path: Seq<char>, i: int) -> Option<
    int,
>
    decreases entries.len() - i,
{
    if i < 0 || i >= entries.len() {
        None
    } else if entries[i].path@ == path {
        Some(i)
    } else {
        path_index_from(entries, path, i + 1)
    }
}

/// The first index at or after `i` of an entry whose stem is `name` up to ASCII case.
pub open spec fn name_index_from(entries: Seq<AnimationEntry>, name: Seq<char>, i: int) -> Option<
    int,
>
    decreases entries.len() - i,
{
    if i < 0 || i >= entries.len() {
        None
    } else if stem_matches(entries[i], name) {
        Some(i)
    } else {
        name_index_from(entries, name, i + 1)
    }
}

/// Whether the stem of an entry's file is `name` up to ASCII case.
pub open spec fn stem_matches(e: AnimationEntry, name: Seq<char>) -> bool {
    match spec_file_stem(e.path@) {
        Some(s) => eq_ignore_ascii_case(s, name),
        None => false,
    }
}

/// The stems of the first `n` entries, skipping entries without one.
pub open spec fn stems_upto(entries: Seq<AnimationEntry>, n: int) -> Seq<Seq<char>>
    decreases n,
{
    if n <= 0 {
        seq![]
    } else {
        match spec_file_stem(entries[n - 1].path@) {
            Some(s) => stems_upto(entries, n - 1).push(s),
            None => stems_upto(entries, n - 1),
        }
    }
}

/// The index after `i` among `n`, wrapping to the first.
pub open spec fn next_index(i: int, n: int) -> int {
    (i + 1) % n
}

/// The index before `i` among `n`, wrapping to the last.
pub open spec fn prev_index(i: int, n: int) -> int {
    if i == 0 {
        n - 1
    } else {
        i - 1
    }
}

/// The views of a sequence of strings.
pub open spec fn views_of(v: Seq<String>) -> Seq<Seq<char>> {
    v.map_values(|x: String| x@)
}

/// Which step a selection by name takes after the directory was scanned again.
#[derive(Debug, PartialEq, Eq)]
pub enum SelectStep {
    /// Write the file at this path to the target; the selection succeeded.
    Apply(String),
    /// Nothing to write; report this as whether the animation was found.
    Report(bool),
}

/// Manages the set of animation files and rotates through them.
pub struct AnimationRotator {
    files: Vec<AnimationEntry>,
    current_index: usize,
    animation_dir: String,
    animation_target: String,
    fallback_duration_ms: u64,
    random_order: bool,
}

impl AnimationRotator {
    /// The active index points into the files, or is 0 when there are none; every
    /// file has a stem.
    #[verifier::type_invariant]
    spec fn index_in_range(self) -> bool {
        &&& if self.files@.len() == 0 {
            self.current_index == 0
        } else {
            self.current_index < self.files@.len()
        }
        &&& all_have_stems(self.files@)
    }

    /// The animation files, in rotation order.
    pub closed spec fn entries(&self) -> Seq<AnimationEntry> {
        self.files@
    }

    /// The position of the active animation.
    pub closed spec fn index(&self) -> int {
        self.current_index as int
    }

    /// The directory that holds the animation files.
    pub closed spec fn dir(&self) -> Seq<char> {
        self.animation_dir@
    }

    /// The file that Niri reads the active animation from.
    pub closed spec fn target(&self) -> Seq<char> {
        self.animation_target@
    }

    /// The play time of files that declare none.
    pub closed spec fn fallback(&self) -> u64 {
        self.fallback_duration_ms
    }

    /// Whether the files are put in a random order.
    pub closed spec fn random(&self) -> bool {
        self.random_order
    }

    /// The settings are those of `other`.
    pub open spec fn same_settings(&self, other: &Self) -> bool {
        &&& self.dir() == other.dir()
        &&& self.target() == other.target()
        &&& self.fallback() == other.fallback()
        &&& self.random() == other.random()
    }

    /// The active entry, if there is one.
    pub open spec fn current_entry(&self) -> Option<AnimationEntry> {
        if self.entries().len() == 0 {
            None
        } else {
            Some(self.entries()[self.index()])
        }
    }

    /// The stem of the active entry's file, if there is an active entry with one.
    pub open spec fn current_stem(&self) -> Option<Seq<char>> {
        match self.current_entry() {
            Some(e) => spec_file_stem(e.path@),
            None => None,
        }
    }

    /// The entries built from a scan, with `fallback` where a file declares no play time.
    pub fn with_durations(scan: &Vec<ScannedFile>, fallback_duration_ms: u64) -> (r: Vec<
        AnimationEntry,
    >)
        ensures
            r@ == entries_of(scan@, fallback_duration_ms),
    {
        let mut r: Vec<AnimationEntry> = Vec::new();
        let mut i: usize = 0;
        while i < scan.len()
            invariant
                i <= scan.len(),
                r@ =~= entries_of(scan@, fallback_duration_ms).subrange(0, i as int),
            decreases scan.len() - i,
        {
            let f = &scan[i];
            let duration_ms = match f.duration_ms {
                Some(d) => d,
                None => fallback_duration_ms,
            };
            r.push(AnimationEntry { path: f.path.clone(), duration_ms });
            i = i + 1;
        }
        r
    }

    /// The paths whose extension is `kdl`, sorted by name for a fixed order.
    ///
    /// Among paths in one directory, the order by characters is the order of
    /// `PathBuf`.
    pub fn select_kdl_files(paths: Vec<String>) -> (r: Vec<String>)
        ensures
            sorted_strings(r@),
            r@.to_multiset() == kdl_paths(paths@).to_multiset(),
            forall|i: int|
                0 <= i < r@.len() ==> spec_path_extension(#[trigger] r@[i]@) == Some(
                    kdl_extension(),
                ) && spec_file_stem(r@[i]@) is Some,
            paths@.no_duplicates() ==> r@.no_duplicates(),
    {
        let kdl = chars_of("kdl");
        proof {
            reveal_strlit("kdl");
            assert(kdl@ =~= kdl_extension());
        }
        let mut keep: Vec<String> = Vec::new();
        let mut i: usize = 0;
        while i < paths.len()
            invariant
                i <= paths.len(),
                kdl@ == kdl_extension(),
                keep@ == kdl_paths(paths@.subrange(0, i as int)),
                forall|k: int|
                    0 <= k < keep@.len() ==> spec_path_extension(#[trigger] keep@[k]@) == Some(
                        kdl_extension(),
                    ) && spec_file_stem(keep@[k]@) is Some,
            decreases paths.len() - i,
        {
            let ext = path_extension(paths[i].as_str());
            let is_kdl = match &ext {
                Some(e) => {
                    let ec = chars_of(e.as_str());
                    chars_equal(&ec, &kdl)
                },
                None => false,
            };
            proof {
                assert(paths@.subrange(0, i + 1).drop_last() =~= paths@.subrange(0, i as int));
                reveal(Seq::filter);
            }
            if is_kdl {
                let ghost before = keep@;
                keep.push(paths[i].clone());
                assert(keep@ == before.push(paths@[i as int]));
            }
            i = i + 1;
        }
        assert(paths@.subrange(0, i as int) =~= paths@);
        let ghost kept = keep@;
        let r = sort_strings(keep);
        proof {
            broadcast use vstd::seq_lib::to_multiset_contains;

            assert forall|i: int| 0 <= i < r@.len() implies spec_path_extension(
                #[trigger] r@[i]@,
            ) == Some(kdl_extension()) && spec_file_stem(r@[i]@) is Some by {
                assert(r@.contains(r@[i]));
                assert(r@.to_multiset().count(r@[i]) > 0);
                assert(kept.to_multiset().count(r@[i]) > 0);
                assert(kept.contains(r@[i]));
                let k = choose|k: int| 0 <= k < kept.len() && kept[k] == r@[i];
            }
            if paths@.no_duplicates() {
                lemma_kdl_paths_distinct(paths@);
                lemma_same_multiset_distinct(kept, r@);
            }
        }
        r
    }

    /// Builds a rotator from a scan of the animation directory.
    ///
    /// The files stay in scan order, or are shuffled when `random_order` holds. The
    /// active file is the first whose bytes equal those of the target file, so a
    /// restart resumes where it stopped; otherwise the first file. Fails when the
    /// scan failed or found no file.
    pub fn new(
        animation_dir: String,
        animation_target: String,
        fallback_duration_ms: u64,
        random_order: bool,
        scan: Result<Vec<ScannedFile>, String>,
        target_content: Option<Vec<u8>>,
    ) -> (r: Result<Self, RotatorError>)
        requires
            scan matches Ok(list) ==> scan_has_stems(list@),
        ensures
            match scan {
                Err(_) => r == Err::<Self, RotatorError>(RotatorError::ScanFailed(animation_dir)),
                Ok(list) => if list@.len() == 0 {
                    r == Err::<Self, RotatorError>(RotatorError::NoAnimationFiles(animation_dir))
                } else {
                    r matches Ok(rot) && {
                        &&& rot.dir() == animation_dir@
                        &&& rot.target() == animation_target@
                        &&& rot.fallback() == fallback_duration_ms
                        &&& rot.random() == random_order
                        &&& !random_order ==> rot.entries() == entries_of(
                            list@,
                            fallback_duration_ms,
                        )
                        &&& rot.entries().to_multiset() == entries_of(
                            list@,
                            fallback_duration_ms,
                        ).to_multiset()
                        &&& rot.index() == match resume_index(
                            rot.entries(),
                            list@,
                            opt_bytes(target_content),
                        ) {
                            Some(i) => i,
                            None => 0,
                        }
                    }
                },
            },
    {
        match scan {
            Err(_) => Err(RotatorError::ScanFailed(animation_dir)),
            Ok(list) => {
                if list.len() == 0 {
                    return Err(RotatorError::NoAnimationFiles(animation_dir));
                }
                let mut files = Self::with_durations(&list, fallback_duration_ms);
                if random_order {
                    shuffle_entries(&mut files);
                }
                proof {
                    lemma_scan_stems_carry(files@, list@, fallback_duration_ms);
                }
                let current_index = match resume_position(&files, &list, &target_content) {
                    Some(i) => i,
                    None => 0,
                };
                Ok(
                    AnimationRotator {
                        files,
                        current_index,
                        animation_dir,
                        animation_target,
                        fallback_duration_ms,
                        random_order,
                    },
                )
            },
        }
    }

    /// A rotator with no files yet (the directory is expected to fill later).
    pub fn empty(
        animation_dir: String,
        animation_target: String,
        fallback_duration_ms: u64,
        random_order: bool,
    ) -> (r: Self)
        ensures
            r.entries().len() == 0,
            r.index() == 0,
            r.dir() == animation_dir@,
            r.target() == animation_target@,
            r.fallback() == fallback_duration_ms,
            r.random() == random_order,
    {
        AnimationRotator {
            files: Vec::new(),
            current_index: 0,
            animation_dir,
            animation_target,
            fallback_duration_ms,
            random_order,
        }
    }

    /// Moves to the next file, wrapping after the last; returns the path of the file
    /// to write to the target. Without files nothing changes and `None` is returned.
    pub fn rotate(&mut self) -> (r: Option<String>)
        ensures
            final(self).entries() == old(self).entries(),
            final(self).same_settings(old(self)),
            old(self).entries().len() == 0 ==> r is None && final(self).index() == old(self).index(),
            old(self).entries().len() > 0 ==> {
                &&& final(self).index() == next_index(old(self).index(), old(self).entries().len() as int)
                &&& r == Some(final(self).entries()[final(self).index()].path)
            },
    {
        proof {
            use_type_invariant(&*self);
        }
        if self.files.len() == 0 {
            return None;
        }
        self.current_index = (self.current_index + 1) % self.files.len();
        Some(self.files[self.current_index].path.clone())
    }

    /// Moves to the previous file, wrapping before the first; returns the path of the
    /// file to write to the target. Without files nothing changes and `None` is returned.
    pub fn rotate_prev(&mut self) -> (r: Option<String>)
        ensures
            final(self).entries() == old(self).entries(),
            final(self).same_settings(old(self)),
            old(self).entries().len() == 0 ==> r is None && final(self).index() == old(self).index(),
            old(self).entries().len() > 0 ==> {
                &&& final(self).index() == prev_index(old(self).index(), old(self).entries().len() as int)
                &&& r == Some(final(self).entries()[final(self).index()].path)
            },
    {
        proof {
            use_type_invariant(&*self);
        }
        if self.files.len() == 0 {
            return None;
        }
        self.current_index = if self.current_index == 0 {
            self.files.len() - 1
        } else {
            self.current_index - 1
        };
        Some(self.files[self.current_index].path.clone())
    }

    /// After a rescan that followed a missing file: starts again from the first file
    /// and returns its path, or returns `None` when no file is left.
    pub fn restart_after_refresh(&mut self) -> (r: Option<String>)
        ensures
            final(self).entries() == old(self).entries(),
            final(self).same_settings(old(self)),
            old(self).entries().len() == 0 ==> r is None && final(self).index() == old(self).index(),
            old(self).entries().len() > 0 ==> {
                &&& final(self).index() == 0
                &&& r == Some(final(self).entries()[0].path)
            },
    {
        proof {
            use_type_invariant(&*self);
        }
        if self.files.len() == 0 {
            return None;
        }
        self.current_index = 0;
        Some(self.files[0].path.clone())
    }

    /// Makes the first file whose stem is `name` (up to ASCII case) the active one and
    /// returns its path; returns `None`, changing nothing, when no stem matches.
    pub fn select_by_name(&mut self, name: &str) -> (r: Option<String>)
        ensures
            final(self).entries() == old(self).entries(),
            final(self).same_settings(old(self)),
            match name_index_from(old(self).entries(), name@, 0) {
                Some(i) => final(self).index() == i && r == Some(final(self).entries()[i].path),
                None => r is None && final(self).index() == old(self).index(),
            },
    {
        proof {
            use_type_invariant(&*self);
        }
        let name_chars = chars_of(name);
        match self.name_position(&name_chars) {
            Some(i) => {
                self.current_index = i;
                Some(self.files[i].path.clone())
            },
            None => None,
        }
    }

    /// After a rescan that followed a missing selected file: selects `name` again and
    /// asks for it to be written when it is still there, and reports `false`
    /// (changing nothing) when it is gone or no file is left.
    pub fn reselect_after_refresh(&mut self, name: &str) -> (r: SelectStep)
        ensures
            final(self).entries() == old(self).entries(),
            final(self).same_settings(old(self)),
            old(self).entries().len() == 0 ==> r == SelectStep::Report(false) && final(self).index()
                == old(self).index(),
            old(self).entries().len() > 0 ==> match name_index_from(
                old(self).entries(),
                name@,
                0,
            ) {
                Some(i) => final(self).index() == i && r == SelectStep::Apply(
                    final(self).entries()[i].path,
                ),
                None => r == SelectStep::Report(false) && final(self).index() == old(self).index(),
            },
    {
        if self.files.len() == 0 {
            return SelectStep::Report(false);
        }
        match self.select_by_name(name) {
            Some(path) => SelectStep::Apply(path),
            None => SelectStep::Report(false),
        }
    }

    /// Takes a new scan of the animation directory.
    ///
    /// A failed scan changes nothing. An empty scan leaves no file. Otherwise the
    /// files are rebuilt (shuffled again when random order is on); the previously
    /// active file stays active where it is still there, unless the target file's
    /// bytes match a file, which then becomes active.
    pub fn refresh(&mut self, scan: Result<Vec<ScannedFile>, String>, target_content: Option<Vec<u8>>)
        requires
            scan matches Ok(list) ==> scan_has_stems(list@),
        ensures
            final(self).same_settings(old(self)),
            match scan {
                Err(_) => final(self).entries() == old(self).entries() && final(self).index() == old(
                    self,
                ).index(),
                Ok(list) => if list@.len() == 0 {
                    final(self).entries().len() == 0 && final(self).index() == 0
                } else {
                    &&& !old(self).random() ==> final(self).entries() == entries_of(
                        list@,
                        old(self).fallback(),
                    )
                    &&& final(self).entries().to_multiset() == entries_of(
                        list@,
                        old(self).fallback(),
                    ).to_multiset()
                    &&& final(self).index() == match resume_index(
                        final(self).entries(),
                        list@,
                        opt_bytes(target_content),
                    ) {
                        Some(i) => i,
                        None => match old(self).current_entry() {
                            Some(e) => match path_index_from(final(self).entries(), e.path@, 0) {
                                Some(j) => j,
                                None => 0,
                            },
                            None => 0,
                        },
                    }
                },
            },
    {
        proof {
            use_type_invariant(&*self);
        }
        match scan {
            Err(_) => {},
            Ok(list) => {
                if list.len() == 0 {
                    *self = AnimationRotator {
                        files: Vec::new(),
                        current_index: 0,
                        animation_dir: self.animation_dir.clone(),
                        animation_target: self.animation_target.clone(),
                        fallback_duration_ms: self.fallback_duration_ms,
                        random_order: self.random_order,
                    };
                    return;
                }
                let mut files = Self::with_durations(&list, self.fallback_duration_ms);
                if self.random_order {
                    shuffle_entries(&mut files);
                }
                proof {
                    lemma_scan_stems_carry(files@, list@, self.fallback_duration_ms);
                }
                let mut current_index: usize = 0;
                if self.files.len() > 0 {
                    match path_position(&files, &self.files[self.current_index].path) {
                        Some(j) => {
                            current_index = j;
                        },
                        None => {},
                    }
                }
                match resume_position(&files, &list, &target_content) {
                    Some(i) => {
                        current_index = i;
                    },
                    None => {},
                }
                *self = AnimationRotator {
                    files,
                    current_index,
                    animation_dir: self.animation_dir.clone(),
                    animation_target: self.animation_target.clone(),
                    fallback_duration_ms: self.fallback_duration_ms,
                    random_order: self.random_order,
                };
            },
        }
    }

    /// The play time of the active animation, or the fallback when there is none.
    pub fn current_duration_ms(&self) -> (r: u64)
        ensures
            r == match self.current_entry() {
                Some(e) => e.duration_ms,
                None => self.fallback(),
            },
    {
        proof {
            use_type_invariant(self);
        }
        if self.files.len() == 0 {
            self.fallback_duration_ms
        } else {
            self.files[self.current_index].duration_ms
        }
    }

    /// The file stem (name without `.kdl`) of the active animation, if any.
    pub fn current_file_stem(&self) -> (r: Option<String>)
        ensures
            opt_view(r) == self.current_stem(),
            r is None <==> self.entries().len() == 0,
            r matches Some(s) ==> s@ == stems_upto(self.entries(), self.entries().len() as int)[self.index()],
            r matches Some(s) ==> stems_upto(self.entries(), self.entries().len() as int).contains(s@),
    {
        proof {
            use_type_invariant(self);
            lemma_one_stem_per_file(self.files@, self.files@.len() as int);
            if self.files@.len() > 0 {
                assert(spec_file_stem(self.files@[self.current_index as int].path@) is Some);
            }
        }
        if self.files.len() == 0 {
            None
        } else {
            path_file_stem(self.files[self.current_index].path.as_str())
        }
    }

    /// The path of the active animation's file, if any.
    pub fn current_path(&self) -> (r: Option<String>)
        ensures
            r == match self.current_entry() {
                Some(e) => Some(e.path),
                None => None::<String>,
            },
    {
        proof {
            use_type_invariant(self);
        }
        if self.files.len() == 0 {
            None
        } else {
            Some(self.files[self.current_index].path.clone())
        }
    }

    /// The file stems of all animations, in rotation order.
    pub fn file_stems(&self) -> (r: Vec<String>)
        ensures
            views_of(r@) == stems_upto(self.entries(), self.entries().len() as int),
            r@.len() == self.entries().len(),
            forall|i: int|
                0 <= i < r@.len() ==> (#[trigger] r@[i])@ == spec_file_stem(
                    self.entries()[i].path@,
                )->0,
    {
        proof {
            use_type_invariant(self);
            lemma_one_stem_per_file(self.files@, self.files@.len() as int);
        }
        let mut r: Vec<String> = Vec::new();
        let mut i: usize = 0;
        while i < self.files.len()
            invariant
                i <= self.files.len(),
                views_of(r@) == stems_upto(self.entries(), i as int),
            decreases self.files.len() - i,
        {
            let ghost before = views_of(r@);
            match path_file_stem(self.files[i].path.as_str()) {
                Some(s) => {
                    r.push(s);
                    assert(views_of(r@) =~= before.push(r@.last()@));
                },
                None => {},
            }
            i = i + 1;
        }
        proof {
            assert forall|i: int| 0 <= i < r@.len() implies (#[trigger] r@[i])@ == spec_file_stem(
                self.entries()[i].path@,
            )->0 by {
                assert(views_of(r@)[i] == r@[i]@);
            }
        }
        r
    }

    /// Whether no animation file is loaded.
    pub fn is_empty(&self) -> (r: bool)
        ensures
            r == (self.entries().len() == 0),
    {
        self.files.len() == 0
    }

    /// The number of animation files loaded.
    pub fn file_count(&self) -> (r: usize)
        ensures
            r == self.entries().len(),
    {
        self.files.len()
    }

    /// The animation directory.
    pub fn animation_dir(&self) -> (r: &str)
        ensures
            r@ == self.dir(),
    {
        self.animation_dir.as_str()
    }

    /// The target file.
    pub fn animation_target(&self) -> (r: &str)
        ensures
            r@ == self.target(),
    {
        self.animation_target.as_str()
    }

    /// The position of the active animation.
    pub fn current_index(&self) -> (r: usize)
        ensures
            r == self.index(),
            self.entries().len() == 0 ==> r == 0,
            self.entries().len() > 0 ==> r < self.entries().len(),
    {
        proof {
            use_type_invariant(self);
        }
        self.current_index
    }

    /// Whether the files are shuffled on every scan.
    pub fn random_order(&self) -> (r: bool)
        ensures
            r == self.random(),
    {
        self.random_order
    }

    /// The play time of files that declare none.
    pub fn fallback_duration_ms(&self) -> (r: u64)
        ensures
            r == self.fallback(),
    {
        self.fallback_duration_ms
    }

    /// The animation files, in rotation order.
    pub fn files(&self) -> (r: &Vec<AnimationEntry>)
        ensures
            r@ == self.entries(),
    {
        &self.files
    }

    /// The first position whose stem matches `name` up to ASCII case.
    fn name_position(&self, name: &Vec<char>) -> (r: Option<usize>)
        ensures
            match r {
                Some(i) => name_index_from(self.entries(), name@, 0) == Some(i as int) && i
                    < self.entries().len(),
                None => name_index_from(self.entries(), name@, 0) is None,
            },
    {
        let mut i: usize = 0;
        while i < self.files.len()
            invariant
                i <= self.files.len(),
                name_index_from(self.entries(), name@, 0) == name_index_from(
                    self.entries(),
                    name@,
                    i as int,
                ),
            decreases self.files.len() - i,
        {
            let matched = match path_file_stem(self.files[i].path.as_str()) {
                Some(s) => {
                    let sc = chars_of(s.as_str());
                    chars_eq_ignore_ascii_case(&sc, name)
                },
                None => false,
            };
            if matched {
                return Some(i);
            }
            i = i + 1;
        }
        None
    }
}

/// Whether two byte vectors are equal.
fn bytes_equal(a: &Vec<u8>, b: &Vec<u8>) -> (r: bool)
    ensures
        r == (a@ == b@),
{
    if a.len() != b.len() {
        return false;
    }
    let mut i: usize = 0;
    while i < a.len()
        invariant
            a.len() == b.len(),
            i <= a.len(),
            forall|k: int| 0 <= k < i ==> a@[k] == b@[k],
        decreases a.len() - i,
    {
        if a[i] != b[i] {
            return false;
        }
        i = i + 1;
    }
    assert(a@ =~= b@);
    true
}

/// The first scanned file with path `path`.
fn scan_position(scan: &Vec<ScannedFile>, path: &String) -> (r: Option<usize>)
    ensures
        match r {
            Some(j) => scan_index_from(scan@, path@, 0) == Some(j as int) && j < scan@.len(),
            None => scan_index_from(scan@, path@, 0) is None,
        },
{
    let mut j: usize = 0;
    while j < scan.len()
        invariant
            j <= scan.len(),
            scan_index_from(scan@, path@, 0) == scan_index_from(scan@, path@, j as int),
        decreases scan.len() - j,
    {
        if scan[j].path == *path {
            return Some(j);
        }
        j = j + 1;
    }
    None
}

/// The first entry with path `path`.
fn path_position(files: &Vec<AnimationEntry>, path: &String) -> (r: Option<usize>)
    ensures
        match r {
            Some(i) => path_index_from(files@, path@, 0) == Some(i as int) && i < files@.len(),
            None => path_index_from(files@, path@, 0) is None,
        },
{
    let mut i: usize = 0;
    while i < files.len()
        invariant
            i <= files.len(),
            path_index_from(files@, path@, 0) == path_index_from(files@, path@, i as int),
        decreases files.len() - i,
    {
        if files[i].path == *path {
            return Some(i);
        }
        i = i + 1;
    }
    None
}

/// The first entry whose file (as scanned) holds the target's bytes.
fn resume_position(
    files: &Vec<AnimationEntry>,
    scan: &Vec<ScannedFile>,
    target: &Option<Vec<u8>>,
) -> (r: Option<usize>)
    ensures
        match r {
            Some(i) => resume_index(files@, scan@, opt_bytes(*target)) == Some(i as int) && i
                < files@.len(),
            None => resume_index(files@, scan@, opt_bytes(*target)) is None,
        },
{
    let t = match target {
        Some(t) => t,
        None => {
            return None;
        },
    };
    let mut i: usize = 0;
    while i < files.len()
        invariant
            i <= files.len(),
            resume_index(files@, scan@, opt_bytes(*target)) == resume_from(
                files@,
                scan@,
                t@,
                i as int,
            ),
            *target == Some(*t),
        decreases files.len() - i,
    {
        let hit = match scan_position(scan, &files[i].path) {
            Some(j) => match &scan[j].content {
                Some(c) => bytes_equal(c, t),
                None => false,
            },
            None => false,
        };
        if hit {
            return Some(i);
        }
        i = i + 1;
    }
    None
}

} // verus!

verus! {

/// Stepping back undoes stepping forward: `rotate_prev` after `rotate` returns to
/// the same animation.
pub proof fn lemma_prev_undoes_next(i: int, n: int)
    requires
        0 <= i < n,
    ensures
        prev_index(next_index(i, n), n) == i,
{
    if i + 1 < n {
        assert((i + 1) % n == i + 1) by (nonlinear_arith)
            requires
                0 <= i + 1 < n,
        ;
    } else {
        assert((i + 1) % n == 0) by (nonlinear_arith)
            requires
                i + 1 == n,
                n > 0,
        ;
    }
}

/// Stepping forward undoes stepping back: `rotate` after `rotate_prev` returns to
/// the same animation.
pub proof fn lemma_next_undoes_prev(i: int, n: int)
    requires
        0 <= i < n,
    ensures
        next_index(prev_index(i, n), n) == i,
{
    if i == 0 {
        assert((n - 1 + 1) % n == 0) by (nonlinear_arith)
            requires
                n > 0,
        ;
    } else {
        assert((i - 1 + 1) % n == i) by (nonlinear_arith)
            requires
                0 < i < n,
        ;
    }
}

/// The index after `k` forward steps from `i` among `n`.
pub open spec fn steps_forward(i: int, n: int, k: nat) -> int
    decreases k,
{
    if k == 0 {
        i
    } else {
        next_index(steps_forward(i, n, (k - 1) as nat), n)
    }
}

/// `k` forward steps move `k` places, wrapping around.
pub proof fn lemma_steps_forward(i: int, n: int, k: nat)
    requires
        0 <= i < n,
    ensures
        steps_forward(i, n, k) == (i + k) % n,
    decreases k,
{
    if k > 0 {
        lemma_steps_forward(i, n, (k - 1) as nat);
        let a = i + k - 1;
        vstd::arithmetic::div_mod::lemma_add_mod_noop_right(1, a, n);
        assert(((a % n) + 1) % n == (a + 1) % n);
    } else {
        vstd::arithmetic::div_mod::lemma_small_mod(i as nat, n as nat);
    }
}

/// Rotating as many times as there are files comes back to the starting file,
/// after visiting each file once.
pub proof fn lemma_full_cycle(i: int, n: int)
    requires
        0 <= i < n,
    ensures
        steps_forward(i, n, n as nat) == i,
        forall|k: nat, m: nat| k < m < n ==> steps_forward(i, n, k) != steps_forward(i, n, m),
{
    lemma_steps_forward(i, n, n as nat);
    assert((i + n) % n == i) by (nonlinear_arith)
        requires
            0 <= i < n,
    {
        vstd::arithmetic::div_mod::lemma_mod_add_multiples_vanish(i, n);
        vstd::arithmetic::div_mod::lemma_small_mod(i as nat, n as nat);
    }
    assert forall|k: nat, m: nat| k < m < n implies steps_forward(i, n, k) != steps_forward(
        i,
        n,
        m,
    ) by {
        lemma_steps_forward(i, n, k);
        lemma_steps_forward(i, n, m);
        assert((i + k) % n != (i + m) % n) by (nonlinear_arith)
            requires
                0 <= i < n,
                k < m < n,
        {
            vstd::arithmetic::div_mod::lemma_fundamental_div_mod(i + k, n);
            vstd::arithmetic::div_mod::lemma_fundamental_div_mod(i + m, n);
        }
    }
}

/// A position found by path holds that path.
pub proof fn lemma_path_index(entries: Seq<AnimationEntry>, path: Seq<char>, i: int)
    requires
        0 <= i,
    ensures
        match path_index_from(entries, path, i) {
            Some(k) => i <= k < entries.len() && entries[k].path@ == path,
            None => forall|k: int| i <= k < entries.len() ==> entries[k].path@ != path,
        },
    decreases entries.len() - i,
{
    if 0 <= i < entries.len() && entries[i].path@ != path {
        lemma_path_index(entries, path, i + 1);
    }
}

/// A rescan keeps the active animation active when its file is still there (and the
/// target's bytes match no file): the entry found by the active path holds it.
pub proof fn lemma_refresh_keeps_active(
    entries: Seq<AnimationEntry>,
    scan: Seq<ScannedFile>,
    fallback: u64,
    active_path: Seq<char>,
    j: int,
)
    requires
        entries.to_multiset() == entries_of(scan, fallback).to_multiset(),
        0 <= j < scan.len(),
        scan[j].path@ == active_path,
    ensures
        match path_index_from(entries, active_path, 0) {
            Some(k) => entries[k].path@ == active_path,
            None => false,
        },
{
    broadcast use vstd::seq_lib::to_multiset_contains;

    let e = entries_of(scan, fallback)[j];
    assert(entries_of(scan, fallback).contains(e));
    assert(entries_of(scan, fallback).to_multiset().count(e) > 0);
    assert(entries.contains(e));
    let k = choose|k: int| 0 <= k < entries.len() && entries[k] == e;
    lemma_path_index(entries, active_path, 0);
}

/// The animation that a selection by name makes active has that name (up to ASCII
/// case), and no earlier one has.
pub proof fn lemma_selected_name(entries: Seq<AnimationEntry>, name: Seq<char>, i: int)
    requires
        0 <= i,
    ensures
        match name_index_from(entries, name, i) {
            Some(k) => i <= k < entries.len() && stem_matches(entries[k], name) && forall|m: int|
                i <= m < k ==> !stem_matches(#[trigger] entries[m], name),
            None => forall|m: int| i <= m < entries.len() ==> !stem_matches(#[trigger] entries[m], name),
        },
    decreases entries.len() - i,
{
    if 0 <= i < entries.len() && !stem_matches(entries[i], name) {
        lemma_selected_name(entries, name, i + 1);
    }
}

/// A selection by name picks a file whose stem has the name's length and agrees
/// with it at every position up to the case of ASCII letters, so a stem that is
/// only a prefix of the name, or longer than it, is never picked. A file whose stem
/// is exactly the name is always found, at its position or at an earlier match.
pub proof fn lemma_selected_stem_is_name(entries: Seq<AnimationEntry>, name: Seq<char>, i: int)
    ensures
        name_index_from(entries, name, 0) matches Some(j) ==> (spec_file_stem(entries[j].path@) matches Some(
            s,
        ) && s.len() == name.len() && forall|k: int|
            0 <= k < s.len() ==> #[trigger] same_up_to_ascii_case(s[k], name[k])),
        0 <= i < entries.len() && spec_file_stem(entries[i].path@) == Some(name) ==> (name_index_from(
            entries,
            name,
            0,
        ) matches Some(j) && j <= i),
{
    lemma_selected_name(entries, name, 0);
    if let Some(j) = name_index_from(entries, name, 0) {
        let s = spec_file_stem(entries[j].path@)->0;
        lemma_eq_ignore_ascii_case(s, name);
    }
    if 0 <= i < entries.len() && spec_file_stem(entries[i].path@) == Some(name) {
        lemma_eq_ignore_ascii_case(name, name);
        assert(stem_matches(entries[i], name));
    }
}

/// The animation that a start resumes with holds exactly what the target file holds,
/// and no earlier one does.
pub proof fn lemma_resumed_content(
    entries: Seq<AnimationEntry>,
    scan: Seq<ScannedFile>,
    target: Seq<u8>,
    i: int,
)
    requires
        0 <= i,
    ensures
        match resume_from(entries, scan, target, i) {
            Some(k) => i <= k < entries.len() && content_of(scan, entries[k].path@) == Some(target)
                && forall|m: int|
                i <= m < k ==> content_of(scan, #[trigger] entries[m].path@) != Some(target),
            None => forall|m: int|
                i <= m < entries.len() ==> content_of(scan, #[trigger] entries[m].path@) != Some(
                    target,
                ),
        },
    decreases entries.len() - i,
{
    if 0 <= i < entries.len() && content_of(scan, entries[i].path@) != Some(target) {
        lemma_resumed_content(entries, scan, target, i + 1);
    }
}

} // verus!

verus! {

/// The paths of a sequence of scanned files.
pub open spec fn scan_paths(scan: Seq<ScannedFile>) -> Seq<String> {
    scan.map_values(|f: ScannedFile| f.path)
}

/// Whether entry `e` is a scanned file with the play time that file declares, or
/// with `fallback` when it declares none.
pub open spec fn keeps_declared_play_time(e: AnimationEntry, scan: Seq<ScannedFile>, fallback: u64) -> bool {
    exists|j: int|
        #![trigger scan[j]]
        0 <= j < scan.len() && e.path == scan[j].path && match scan[j].duration_ms {
            Some(d) => e.duration_ms == d,
            None => e.duration_ms == fallback,
        }
}

/// Each file keeps the play time it declares, whatever the fallback (longer or
/// shorter); only a file that declares none gets the fallback. This holds of the
/// entries in scan order and of any reordering of them (random order).
pub proof fn lemma_declared_play_time(
    entries: Seq<AnimationEntry>,
    scan: Seq<ScannedFile>,
    fallback: u64,
)
    requires
        entries.to_multiset() == entries_of(scan, fallback).to_multiset(),
    ensures
        entries_of(scan, fallback).len() == scan.len(),
        forall|i: int|
            0 <= i < scan.len() ==> {
                &&& (#[trigger] entries_of(scan, fallback)[i]).path == scan[i].path
                &&& scan[i].duration_ms matches Some(d) ==> entries_of(scan, fallback)[i].duration_ms == d
                &&& scan[i].duration_ms is None ==> entries_of(scan, fallback)[i].duration_ms == fallback
            },
        forall|k: int|
            0 <= k < entries.len() ==> #[trigger] keeps_declared_play_time(entries[k], scan, fallback),
{
    broadcast use vstd::seq_lib::to_multiset_contains;

    assert forall|k: int| 0 <= k < entries.len() implies #[trigger] keeps_declared_play_time(
        entries[k],
        scan,
        fallback,
    ) by {
        let e = entries[k];
        assert(entries.contains(e));
        assert(entries.to_multiset().count(e) > 0);
        assert(entries_of(scan, fallback).contains(e));
        let j = choose|j: int| 0 <= j < entries_of(scan, fallback).len() && entries_of(scan, fallback)[j] == e;
        assert(entries_of(scan, fallback)[j] == entry_of(scan[j], fallback));
        assert(entries[k].path == scan[j].path);
        assert(0 <= j < scan.len());
    }
}

/// Without random order the files keep the order of the scan, which is alphabetical:
/// the entries' paths are the scanned paths, in the same order.
pub proof fn lemma_scan_order_kept(scan: Seq<ScannedFile>, fallback: u64)
    requires
        sorted_strings(scan_paths(scan)),
    ensures
        entries_of(scan, fallback).len() == scan.len(),
        forall|i: int|
            0 <= i < scan.len() ==> (#[trigger] entries_of(scan, fallback)[i]).path == scan[i].path,
        forall|i: int, j: int|
            0 <= i < j < scan.len() ==> crate::order::lex_le(
                (#[trigger] entries_of(scan, fallback)[i]).path@,
                (#[trigger] entries_of(scan, fallback)[j]).path@,
            ),
{
    assert forall|i: int, j: int| 0 <= i < j < scan.len() implies crate::order::lex_le(
        (#[trigger] entries_of(scan, fallback)[i]).path@,
        (#[trigger] entries_of(scan, fallback)[j]).path@,
    ) by {
        assert(scan_paths(scan)[i] == scan[i].path);
        assert(scan_paths(scan)[j] == scan[j].path);
    }
}

} // verus!

verus! {

/// Keeping the `.kdl` paths of a list without repeats gives a list without repeats.
proof fn lemma_kdl_paths_distinct(paths: Seq<String>)
    requires
        paths.no_duplicates(),
    ensures
        kdl_paths(paths).no_duplicates(),
    decreases paths.len(),
{
    if paths.len() > 0 {
        let init = paths.drop_last();
        assert(init.no_duplicates());
        lemma_kdl_paths_distinct(init);
        reveal(Seq::filter);
        let pred = |p: String| spec_path_extension(p@) == Some(kdl_extension());
        assert(paths.filter(pred) == if pred(paths.last()) {
            init.filter(pred).push(paths.last())
        } else {
            init.filter(pred)
        });
        if pred(paths.last()) {
            assert forall|k: int| 0 <= k < init.filter(pred).len() implies #[trigger] init.filter(
                pred,
            )[k] != paths.last() by {
                let x = init.filter(pred)[k];
                assert(init.filter(pred).contains(x));
                init.lemma_filter_contains_rev(pred, x);
            }
        }
    }
}

/// A list with the same items, counted with repeats, as a list without repeats has
/// no repeats either.
proof fn lemma_same_multiset_distinct(a: Seq<String>, b: Seq<String>)
    requires
        a.no_duplicates(),
        a.to_multiset() == b.to_multiset(),
    ensures
        b.no_duplicates(),
{
    a.lemma_multiset_has_no_duplicates();
    b.lemma_multiset_has_no_duplicates_conv();
}

/// Whether every scanned file's path has a stem (as every path that
/// `select_kdl_files` keeps has).
pub open spec fn scan_has_stems(scan: Seq<ScannedFile>) -> bool {
    forall|j: int| 0 <= j < scan.len() ==> (#[trigger] spec_file_stem(scan[j].path@)) is Some
}

/// Whether every entry's file has a stem (as every `.kdl` path does).
pub open spec fn all_have_stems(entries: Seq<AnimationEntry>) -> bool {
    forall|i: int| 0 <= i < entries.len() ==> (#[trigger] spec_file_stem(entries[i].path@)) is Some
}

/// When every file has a stem, the list of stems has one per file, in file order.
pub proof fn lemma_one_stem_per_file(entries: Seq<AnimationEntry>, n: int)
    requires
        0 <= n <= entries.len(),
        all_have_stems(entries),
    ensures
        stems_upto(entries, n).len() == n,
        forall|i: int|
            0 <= i < n ==> #[trigger] stems_upto(entries, n)[i] == spec_file_stem(
                entries[i].path@,
            )->0,
    decreases n,
{
    if n > 0 {
        lemma_one_stem_per_file(entries, n - 1);
        assert(spec_file_stem(entries[n - 1].path@) is Some);
    }
}

/// Files built from a scan whose paths all have stems (such as the paths that
/// `select_kdl_files` keeps) all have stems, in any order.
pub proof fn lemma_scan_stems_carry(entries: Seq<AnimationEntry>, scan: Seq<ScannedFile>, fallback: u64)
    requires
        entries.to_multiset() == entries_of(scan, fallback).to_multiset(),
        scan_has_stems(scan),
    ensures
        all_have_stems(entries),
{
    broadcast use vstd::seq_lib::to_multiset_contains;

    assert forall|i: int| 0 <= i < entries.len() implies (#[trigger] spec_file_stem(
        entries[i].path@,
    )) is Some by {
        let e = entries[i];
        assert(entries.contains(e));
        assert(entries.to_multiset().count(e) > 0);
        assert(entries_of(scan, fallback).contains(e));
        let j = choose|j: int| 0 <= j < entries_of(scan, fallback).len() && entries_of(scan, fallback)[j] == e;
        assert(spec_file_stem(scan[j].path@) is Some);
    }
}

/// A rescan that no longer holds the active file (and whose target bytes match no
/// file) starts from the first file: the old path is found nowhere.
pub proof fn lemma_refresh_restarts_when_active_gone(
    entries: Seq<AnimationEntry>,
    scan: Seq<ScannedFile>,
    fallback: u64,
    active_path: Seq<char>,
)
    requires
        entries.to_multiset() == entries_of(scan, fallback).to_multiset(),
        forall|j: int| 0 <= j < scan.len() ==> (#[trigger] scan[j].path)@ != active_path,
    ensures
        path_index_from(entries, active_path, 0) is None,
{
    broadcast use vstd::seq_lib::to_multiset_contains;

    lemma_path_index(entries, active_path, 0);
    if let Some(k) = path_index_from(entries, active_path, 0) {
        let e = entries[k];
        assert(entries.contains(e));
        assert(entries.to_multiset().count(e) > 0);
        assert(entries_of(scan, fallback).contains(e));
        let j = choose|j: int| 0 <= j < entries_of(scan, fallback).len() && entries_of(scan, fallback)[j] == e;
        assert(scan[j].path@ == active_path);
    }
}

/// Whether each rotator in `states` keeps the settings of the one before it (as
/// every operation on a rotator does).
pub open spec fn settings_chain(states: Seq<AnimationRotator>) -> bool {
    forall|i: int| 0 < i < states.len() ==> (#[trigger] states[i]).same_settings(&states[i - 1])
}

/// Over any sequence of operations the directory, the target, the fallback and the
/// random-order flag stay those the rotator was built with.
pub proof fn lemma_settings_kept(states: Seq<AnimationRotator>)
    requires
        states.len() > 0,
        settings_chain(states),
    ensures
        states.last().same_settings(&states[0]),
    decreases states.len(),
{
    if states.len() > 1 {
        let t = states.drop_last();
        assert forall|i: int| 0 < i < t.len() implies (#[trigger] t[i]).same_settings(&t[i - 1]) by {
            assert(t[i] == states[i] && t[i - 1] == states[i - 1]);
        }
        lemma_settings_kept(t);
        assert(states[states.len() - 1].same_settings(&states[states.len() - 2]));
    }
}

} // verus!
