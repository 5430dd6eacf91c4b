//! What is said to a child process, and how its program is found on Windows.

use vstd::prelude::*;

use crate::error::ProxyError;
use crate::text::{chars_of, contains_char};

verus! {

/// What is written to the child for one line: the line, and a line feed where it ends in none.
pub open spec fn framed(line: Seq<char>) -> Seq<char> {
    if line.len() > 0 && line.last() == '\n' {
        line
    } else {
        line.push('\n')
    }
}

/// What is written to the child for one line.
pub fn frame_line(line: &str) -> (text: String)
    ensures
        text@ == framed(line@),
{
    let chars: Vec<char> = chars_of(line);
    let mut text: String = line.to_owned();
    if chars.len() == 0 || chars[chars.len() - 1] != '\n' {
        text.push('\n');
    }
    text
}

/// One message is one line: what is written for a text without a line feed has a line feed at
/// its end and nowhere else.
pub proof fn law_one_message_is_one_line(line: Seq<char>)
    requires
        !line.contains('\n'),
    ensures
        framed(line) == line.push('\n'),
        forall|i: int|
            0 <= i < framed(line).len() ==> (#[trigger] framed(line)[i] == '\n' <==> i
                == framed(line).len() - 1),
{
    if line.len() > 0 {
        assert(line.contains(line.last()));
    }
    assert forall|i: int| 0 <= i < framed(line).len() implies (#[trigger] framed(line)[i] == '\n'
        <==> i == framed(line).len() - 1) by {
        if i < line.len() {
            assert(line.contains(line[i]));
        }
    }
}

/// The error of a line that no child is there to read.
pub fn stdin_closed(id: &str) -> (e: ProxyError)
    ensures
        e matches ProxyError::ChildExited { id: name, reason } && name@ == id@ && reason@
            == "stdin channel closed"@,
{
    ProxyError::ChildExited { id: id.to_owned(), reason: "stdin channel closed".to_owned() }
}

/// The extensions of programs, in the order in which they are tried.
pub open spec fn extensions() -> Seq<Seq<char>> {
    seq!["exe"@, "cmd"@, "bat"@, "com"@]
}

/// A file to look for.
#[derive(Debug)]
pub enum Candidate {
    /// The program as it is named, with this extension.
    WithExtension(String),
    /// The file `name` in directory number `dir` of the search path.
    InDirectory { dir: usize, name: String },
}

/// What a `Candidate` is.
pub enum CandidateV {
    WithExtension(Seq<char>),
    InDirectory { dir: int, name: Seq<char> },
}

impl View for Candidate {
    type V = CandidateV;

    open spec fn view(&self) -> CandidateV {
        match *self {
            Candidate::WithExtension(ext) => CandidateV::WithExtension(ext@),
            Candidate::InDirectory { dir, name } => CandidateV::InDirectory {
                dir: dir as int,
                name: name@,
            },
        }
    }
}

/// The files that may be the program, in the order in which they are tried. A program that has
/// an extension is taken as it is. One that is named with a path is looked for beside that path,
/// and any other in the directories of the search path.
pub open spec fn candidates(program: Seq<char>, has_extension: bool, dirs: nat) -> Seq<CandidateV> {
    if has_extension {
        Seq::empty()
    } else if program.contains('\\') || program.contains('/') {
        Seq::new(4, |i: int| CandidateV::WithExtension(extensions()[i]))
    } else {
        Seq::new(
            dirs * 4,
            |i: int|
                CandidateV::InDirectory {
                    dir: i / 4,
                    name: program + "."@ + extensions()[i % 4],
                },
        )
    }
}

impl Candidate {
    fn copy(&self) -> (copy: Self)
        ensures
            copy@ == self@,
    {
        match self {
            Candidate::WithExtension(ext) => Candidate::WithExtension(ext.clone()),
            Candidate::InDirectory { dir, name } => Candidate::InDirectory {
                dir: *dir,
                name: name.clone(),
            },
        }
    }
}

/// What to do next in a search.
#[derive(Debug)]
pub enum SearchStep {
    /// Look whether there is such a file.
    Look(Candidate),
    /// The program is this file.
    Found(Candidate),
    /// No candidate is there.
    NotFound,
}

/// What a `SearchStep` is.
pub enum SearchStepV {
    Look(CandidateV),
    Found(CandidateV),
    NotFound,
}

impl View for SearchStep {
    type V = SearchStepV;

    open spec fn view(&self) -> SearchStepV {
        match *self {
            SearchStep::Look(candidate) => SearchStepV::Look(candidate@),
            SearchStep::Found(candidate) => SearchStepV::Found(candidate@),
            SearchStep::NotFound => SearchStepV::NotFound,
        }
    }
}

/// What a `ProgramSearch` is: the candidate that is being looked for, and those that are left.
#[verifier::ext_equal]
pub struct SearchV {
    pub current: Option<CandidateV>,
    pub remaining: Seq<CandidateV>,
}

/// What becomes of a search, where `exists` says whether the file that is being looked for is
/// there: the search ends at the first one that is.
pub open spec fn stepped(search: SearchV, exists: bool) -> (SearchV, SearchStepV) {
    if exists && search.current is Some {
        (SearchV { current: None, ..search }, SearchStepV::Found(search.current->Some_0))
    } else if search.remaining.len() == 0 {
        (SearchV { current: None, ..search }, SearchStepV::NotFound)
    } else {
        (
            SearchV {
                current: Some(search.remaining[0]),
                remaining: search.remaining.skip(1),
            },
            SearchStepV::Look(search.remaining[0]),
        )
    }
}

/// What a search comes to, step by step, where `is_there` says which files there are.
pub open spec fn searched(search: SearchV, is_there: spec_fn(CandidateV) -> bool) -> Option<
    CandidateV,
>
    decreases search.remaining.len(),
{
    let there = search.current is Some && is_there(search.current->Some_0);
    let (next, step) = stepped(search, there);
    match step {
        SearchStepV::Found(candidate) => Some(candidate),
        SearchStepV::NotFound => None,
        SearchStepV::Look(_) => if search.remaining.len() > 0 {
            searched(next, is_there)
        } else {
            None
        },
    }
}

/// A search among `files` comes to the first of them that is there, and to none where none is.
pub proof fn law_search_finds_the_first_file(
    files: Seq<CandidateV>,
    is_there: spec_fn(CandidateV) -> bool,
)
    ensures
        (match searched(SearchV { current: None, remaining: files }, is_there) {
            Some(found) => exists|i: int|
                0 <= i < files.len() && #[trigger] files[i] == found && is_there(found) && forall|
                    j: int,
                |
                    0 <= j < i ==> !is_there(#[trigger] files[j]),
            None => forall|i: int| 0 <= i < files.len() ==> !is_there(#[trigger] files[i]),
        }),
{
    lemma_searched(SearchV { current: None, remaining: files }, is_there);
    assert(first_there(files, is_there) == searched(
        SearchV { current: None, remaining: files },
        is_there,
    ));
    lemma_first_there(files, is_there);
}

spec fn first_there(files: Seq<CandidateV>, is_there: spec_fn(CandidateV) -> bool) -> Option<
    CandidateV,
>
    decreases files.len(),
{
    if files.len() == 0 {
        None
    } else if is_there(files[0]) {
        Some(files[0])
    } else {
        first_there(files.skip(1), is_there)
    }
}

proof fn lemma_searched(search: SearchV, is_there: spec_fn(CandidateV) -> bool)
    ensures
        searched(search, is_there) == (if search.current is Some && is_there(search.current->Some_0) {
            search.current
        } else {
            first_there(search.remaining, is_there)
        }),
    decreases search.remaining.len(),
{
    if search.remaining.len() > 0 {
        lemma_searched(
            SearchV {
                current: Some(search.remaining[0]),
                remaining: search.remaining.skip(1),
            },
            is_there,
        );
    }
}

proof fn lemma_first_there(files: Seq<CandidateV>, is_there: spec_fn(CandidateV) -> bool)
    ensures
        (match first_there(files, is_there) {
            Some(found) => exists|i: int|
                0 <= i < files.len() && #[trigger] files[i] == found && is_there(found) && forall|
                    j: int,
                |
                    0 <= j < i ==> !is_there(#[trigger] files[j]),
            None => forall|i: int| 0 <= i < files.len() ==> !is_there(#[trigger] files[i]),
        }),
    decreases files.len(),
{
    if files.len() > 0 && !is_there(files[0]) {
        let rest = files.skip(1);
        lemma_first_there(rest, is_there);
        match first_there(rest, is_there) {
            Some(found) => {
                let i = choose|i: int|
                    0 <= i < rest.len() && #[trigger] rest[i] == found && is_there(found) && forall|
                        j: int,
                    |
                        0 <= j < i ==> !is_there(#[trigger] rest[j]);
                assert(files[i + 1] == found);
                assert forall|j: int| 0 <= j < i + 1 implies !is_there(#[trigger] files[j]) by {
                    if j > 0 {
                        assert(rest[j - 1] == files[j]);
                    }
                }
            },
            None => {
                assert forall|j: int| 0 <= j < files.len() implies !is_there(#[trigger] files[j]) by {
                    if j > 0 {
                        assert(rest[j - 1] == files[j]);
                    }
                }
            },
        }
    }
}

/// A search for a program among the candidates for it.
#[derive(Debug)]
pub struct ProgramSearch {
    current: Option<Candidate>,
    program: String,
    in_place: bool,
    dirs: usize,
    dir: usize,
    extension: usize,
}

impl View for ProgramSearch {
    type V = SearchV;

    closed spec fn view(&self) -> SearchV {
        SearchV {
            current: match self.current {
                Some(candidate) => Some(candidate@),
                None => None,
            },
            remaining: self.remaining(),
        }
    }
}

impl ProgramSearch {
    #[verifier::type_invariant]
    spec fn well_formed(self) -> bool {
        &&& self.dir <= self.dirs
        &&& self.extension < 4
        &&& self.dir == self.dirs ==> self.extension == 0
        &&& self.in_place ==> self.dirs <= 1
    }

    spec fn remaining(&self) -> Seq<CandidateV> {
        if self.in_place {
            Seq::new(
                (self.dirs * 4 - self.tried()) as nat,
                |i: int| CandidateV::WithExtension(extensions()[i + self.tried()]),
            )
        } else {
            Seq::new(
                (self.dirs * 4 - self.tried()) as nat,
                |i: int|
                    CandidateV::InDirectory {
                        dir: (i + self.tried()) / 4,
                        name: self.program@ + "."@ + extensions()[(i + self.tried()) % 4],
                    },
            )
        }
    }

    spec fn tried(&self) -> int {
        self.dir * 4 + self.extension
    }

    /// Begins the search for `program`: whether its name has an extension is for the caller to
    /// say, and over how many directories the search path goes.
    pub fn new(program: &str, has_extension: bool, dirs: usize) -> (search: Self)
        ensures
            search@ == (SearchV {
                current: None,
                remaining: candidates(program@, has_extension, dirs as nat),
            }),
    {
        let in_place: bool = contains_char(program, '\\') || contains_char(program, '/');
        let rounds: usize = if has_extension {
            0
        } else if in_place {
            1
        } else {
            dirs
        };
        let search = ProgramSearch {
            current: None,
            program: program.to_owned(),
            in_place,
            dirs: rounds,
            dir: 0,
            extension: 0,
        };
        assert(search.remaining() =~= candidates(program@, has_extension, dirs as nat));
        search
    }

    /// The candidate that is next.
    fn next_candidate(&self) -> (candidate: Option<Candidate>)
        ensures
            (match candidate {
                Some(c) => self.remaining().len() > 0 && c@ == self.remaining()[0],
                None => self.remaining().len() == 0,
            }),
    {
        proof {
            use_type_invariant(self);
        }
        if self.dir == self.dirs {
            return None;
        }
        let ext: &str = match self.extension {
            0 => "exe",
            1 => "cmd",
            2 => "bat",
            _ => "com",
        };
        let candidate: Candidate = if self.in_place {
            Candidate::WithExtension(ext.to_owned())
        } else {
            Candidate::InDirectory {
                dir: self.dir,
                name: self.program.clone().concat(".").concat(ext),
            }
        };
        assert(candidate@ == self.remaining()[0]);
        Some(candidate)
    }

    /// Takes whether the file is there that the last step said to look for, and says what is
    /// next. At first no file was looked for, and it does not matter what is said of it.
    pub fn step(&mut self, exists: bool) -> (step: SearchStep)
        ensures
            (final(self)@, step@) == stepped(old(self)@, exists),
    {
        proof {
            use_type_invariant(&*self);
        }
        let ghost before = *self;
        if exists {
            if let Some(candidate) = &self.current {
                let found: Candidate = candidate.copy();
                self.current = None;
                assert(self.remaining() =~= before.remaining());
                return SearchStep::Found(found);
            }
        }
        let next: Option<Candidate> = self.next_candidate();
        let at_last: bool = self.extension == 3;
        match next {
            Some(candidate) => {
                *self = ProgramSearch {
                    current: Some(candidate.copy()),
                    program: self.program.clone(),
                    in_place: self.in_place,
                    dirs: self.dirs,
                    dir: if at_last {
                        self.dir + 1
                    } else {
                        self.dir
                    },
                    extension: if at_last {
                        0
                    } else {
                        self.extension + 1
                    },
                };
                assert(self.tried() == before.tried() + 1);
                assert(self.remaining() =~= before.remaining().skip(1));
                SearchStep::Look(candidate)
            },
            None => {
                self.current = None;
                assert(self.remaining() =~= before.remaining());
                SearchStep::NotFound
            },
        }
    }
}

/// The program to run: the file that was found, or else the program as it is named.
pub fn resolved_program(program: &str, found: Option<String>) -> (r: String)
    ensures
        r@ == (match found {
            Some(file) => file@,
            None => program@,
        }),
{
    match found {
        Some(file) => file,
        None => program.to_owned(),
    }
}

/// What is written for a line is the line with one line feed at its end: none is added where it
/// ends in one already, and nothing else is added or lost.
pub proof fn law_a_line_is_written_with_its_end(line: Seq<char>)
    ensures
        framed(line.push('\n')) == line.push('\n'),
        line.len() == 0 || line.last() != '\n' ==> framed(line) == line.push('\n'),
        framed(framed(line)) == framed(line),
{
    assert(line.push('\n').last() == '\n');
}

/// The extensions are tried in their order, and each directory with all of them before the next.
/// A program named with a path is tried in its place, and one with an extension is not searched.
pub proof fn law_candidates_go_by_directory_and_extension(
    program: Seq<char>,
    dirs: nat,
    dir: int,
    i: int,
)
    requires
        0 <= i < 4,
    ensures
        candidates(program, true, dirs).len() == 0,
        ({
            let extension = if i == 0 {
                "exe"@
            } else if i == 1 {
                "cmd"@
            } else if i == 2 {
                "bat"@
            } else {
                "com"@
            };
            let all = candidates(program, false, dirs);
            if program.contains('/') || program.contains('\\') {
                all.len() == 4 && all[i] == CandidateV::WithExtension(extension)
            } else {
                all.len() == 4 * dirs && (0 <= dir < dirs ==> all[4 * dir + i] == (
                CandidateV::InDirectory { dir, name: program + "."@ + extension }))
            }
        }),
{
    assert((4 * dir + i) / 4 == dir && (4 * dir + i) % 4 == i);
}

/// The file that a step says to look for is the one that the next answer is about.
pub proof fn law_the_answer_is_about_the_file_looked_for(search: SearchV, exists: bool)
    ensures
        stepped(search, exists).1 matches SearchStepV::Look(file) ==> stepped(
            search,
            exists,
        ).0.current == Some(file) && stepped(stepped(search, exists).0, true).1
            == SearchStepV::Found(file),
{
}

/// A candidate, and a step, is told whole.
pub proof fn law_candidates_are_told_whole(text: String, dir: usize, candidate: Candidate)
    ensures
        Candidate::WithExtension(text)@ == CandidateV::WithExtension(text@),
        (Candidate::InDirectory { dir, name: text })@ == (CandidateV::InDirectory {
            dir: dir as int,
            name: text@,
        }),
        SearchStep::Look(candidate)@ == SearchStepV::Look(candidate@),
        SearchStep::Found(candidate)@ == SearchStepV::Found(candidate@),
        SearchStep::NotFound@ == SearchStepV::NotFound,
{
}

/// A search goes file by file: a file that is there ends it, and otherwise the next one is looked
/// for, until none is left. No file is passed over and none is looked for twice.
pub proof fn law_a_search_goes_file_by_file(
    file: CandidateV,
    remaining: Seq<CandidateV>,
    current: Option<CandidateV>,
)
    ensures
        stepped(SearchV { current: Some(file), remaining }, true) == (
            SearchV { current: None, remaining },
            SearchStepV::Found(file),
        ),
        remaining.len() > 0 ==> stepped(SearchV { current, remaining }, false) == (
            SearchV { current: Some(remaining[0]), remaining: remaining.skip(1) },
            SearchStepV::Look(remaining[0]),
        ),
        remaining.len() == 0 ==> stepped(SearchV { current, remaining }, false) == (
            SearchV { current: None, remaining },
            SearchStepV::NotFound,
        ),
        stepped(SearchV { current: None, remaining }, true) == stepped(
            SearchV { current: None, remaining },
            false,
        ),
{
}

} // verus!
