//! The Markdown repository: one file per task in the project's `.tasks`
//! directory, named after the task's slug, holding a YAML header between
//! `---` fences followed by the task's description.

use vstd::prelude::*;
use crate::text::{
    trim,
    trim_start,
    find_from,
    occurs_at,
    lemma_find_from,
    lemma_trim_start_first,
    lemma_trim_surrounding,
    is_white_space,
    chars_of,
    skip_white_space,
    trimmed,
    find_seq,
    string_from_range,
    push_char,
};
use crate::paths::{path_join, push_path};
use crate::slug::{slug, get_task_slug};
use crate::task::Task;

verus! {

/// A repository of tasks kept as Markdown files in one directory.
pub struct MDRepository {
    tasks_directory: String,
}

impl View for MDRepository {
    type V = Seq<char>;

    /// The directory that holds the task files.
    closed spec fn view(&self) -> Seq<char> {
        self.tasks_directory@
    }
}

/// Why a repository could not be opened.
#[derive(Debug, PartialEq, Eq, Structural)]
pub enum InitError {
    InvalidWorkingDirectory,
}

/// The line that opens and closes the header: `---`.
pub open spec fn fence() -> Seq<char> {
    seq!['-', '-', '-']
}

/// What ends the header: a line break followed by `---`.
pub open spec fn header_end() -> Seq<char> {
    seq!['\n', '-', '-', '-']
}

/// The header and the body of a task file, as `parse_frontmatter` reads them:
/// once leading white space is skipped, a file that starts with `---` and has
/// a later line break followed by `---` yields the text in between and the
/// text after, both trimmed; any other file yields no header and the whole
/// file as body.
pub open spec fn frontmatter(content: Seq<char>) -> (Seq<char>, Seq<char>) {
    let t = trim_start(content);
    if t.len() >= 3 && t.take(3) == fence() {
        let rest = t.skip(3);
        match find_from(rest, header_end(), 0) {
            Some(e) => (trim(rest.take(e as int)), trim(rest.skip(e + 4int))),
            None => (Seq::<char>::empty(), content),
        }
    } else {
        (Seq::<char>::empty(), content)
    }
}

/// The text of a task file: `---`, a line break, the YAML header, `---`, a line
/// break and the description.
pub open spec fn task_file_text(header_yaml: Seq<char>, description: Seq<char>) -> Seq<char> {
    fence().push('\n') + header_yaml + fence().push('\n') + description
}

/// The copy of `v[lo..hi]`.
fn sub_vec(v: &Vec<char>, lo: usize, hi: usize) -> (r: Vec<char>)
    requires
        lo <= hi <= v.len(),
    ensures
        r@ == v@.subrange(lo as int, hi as int),
{
    let mut r: Vec<char> = Vec::new();
    let mut i = lo;
    while i < hi
        invariant
            lo <= i <= hi <= v.len(),
            r@ == v@.subrange(lo as int, i as int),
        decreases hi - i,
    {
        r.push(v[i]);
        assert(v@.subrange(lo as int, i + 1) == v@.subrange(lo as int, i as int).push(v@[i as int]));
        i = i + 1;
    }
    r
}

/// Splits a task file into its YAML header and its body (see `frontmatter`).
pub fn parse_frontmatter(content: &str) -> (r: [String; 2])
    ensures
        r[0]@ == frontmatter(content@).0,
        r[1]@ == frontmatter(content@).1,
{
    let v = chars_of(content);
    let n = v.len();
    assert(v@.subrange(0, n as int) == v@);
    let s = skip_white_space(&v, 0, n);
    let ghost t = trim_start(content@);
    assert(t == v@.subrange(s as int, n as int));
    if n - s >= 3 && v[s] == '-' && v[s + 1] == '-' && v[s + 2] == '-' {
        assert(t.take(3) =~= fence());
        let rest = sub_vec(&v, s + 3, n);
        assert(rest@ == t.skip(3));
        let mut delim: Vec<char> = Vec::new();
        delim.push('\n');
        delim.push('-');
        delim.push('-');
        delim.push('-');
        assert(delim@ =~= header_end());
        match find_seq(&rest, &delim, 0) {
            Some(e) => {
                proof {
                    lemma_find_from(rest@, header_end(), 0);
                }
                assert(rest@.subrange(0, e as int) == rest@.take(e as int));
                assert(rest@.subrange(e + 4, rest@.len() as int) == rest@.skip(e + 4));
                let yaml = trimmed(&rest, 0, e);
                let body = trimmed(&rest, e + 4, rest.len());
                return [yaml, body];
            },
            None => {},
        }
    } else {
        assert(!(t.len() >= 3 && t.take(3) == fence())) by {
            if t.len() >= 3 && t.take(3) == fence() {
                assert(t.take(3)[0] == v@[s as int]);
                assert(t.take(3)[1] == v@[s + 1]);
                assert(t.take(3)[2] == v@[s + 2]);
            }
        }
    }
    [String::new(), string_from_range(&v, 0, n)]
}

/// The text of the file that stores a task, given its header in YAML.
pub fn task_file_content(header_yaml: &str, description: &str) -> (r: String)
    ensures
        r@ == task_file_text(header_yaml@, description@),
{
    let mut r = String::new();
    push_char(&mut r, '-');
    push_char(&mut r, '-');
    push_char(&mut r, '-');
    push_char(&mut r, '\n');
    r.append(header_yaml);
    push_char(&mut r, '-');
    push_char(&mut r, '-');
    push_char(&mut r, '-');
    push_char(&mut r, '\n');
    r.append(description);
    assert(r@ =~= task_file_text(header_yaml@, description@));
    r
}

/// The first occurrence, when there is one at `i` and none before it from `k`.
proof fn lemma_find_from_first(s: Seq<char>, p: Seq<char>, k: nat, i: nat)
    requires
        k <= i,
        occurs_at(s, p, i as int),
        forall|j: int| k <= j < i ==> !occurs_at(s, p, j),
    ensures
        find_from(s, p, k) == Some(i),
    decreases i - k,
{
    if k < i {
        assert(!occurs_at(s, p, k as int));
        lemma_find_from_first(s, p, k + 1, i);
    }
}

/// Trimming the start keeps a suffix.
proof fn lemma_trim_start_suffix(s: Seq<char>)
    ensures
        trim_start(s).len() <= s.len(),
        trim_start(s) == s.skip(s.len() - trim_start(s).len()),
    decreases s.len(),
{
    if s.len() > 0 && is_white_space(s[0]) {
        lemma_trim_start_suffix(s.drop_first());
        assert(s.drop_first().skip(s.len() - 1 - trim_start(s).len()) =~= s.skip(
            s.len() - trim_start(s).len(),
        ));
    } else {
        assert(s.skip(0) =~= s);
    }
}

/// A file in which no line break is followed by `---` has no header: all of it
/// is the body. So is a file that, past its leading white space, does not start
/// with `---`.
pub proof fn lemma_frontmatter_without_header(content: Seq<char>)
    ensures
        find_from(content, header_end(), 0) is None ==> frontmatter(content) == (
            Seq::<char>::empty(),
            content,
        ),
        !(trim_start(content).len() >= 3 && trim_start(content).take(3) == fence())
            ==> frontmatter(content) == (Seq::<char>::empty(), content),
{
    let t = trim_start(content);
    if find_from(content, header_end(), 0) is None && t.len() >= 3 && t.take(3) == fence() {
        lemma_trim_start_suffix(content);
        let k = content.len() - t.len();
        let rest = t.skip(3);
        lemma_find_from(rest, header_end(), 0);
        lemma_find_from(content, header_end(), 0);
        if let Some(e) = find_from(rest, header_end(), 0) {
            assert(rest.subrange(e as int, e + 4int) =~= content.subrange(
                k + 3 + e,
                k + 3 + e + 4,
            ));
            assert(occurs_at(content, header_end(), k + 3 + e));
        }
    }
}

/// Whatever the text `m` between the opening `---` and a line break followed by
/// `---` is (line breaks `\r\n`, white space after the fence, anything), as long
/// as no line break followed by `---` occurs in it, the header is `m` trimmed
/// and the body is the rest trimmed.
pub proof fn lemma_frontmatter_split(m: Seq<char>, d: Seq<char>)
    requires
        find_from(m, header_end(), 0) is None,
    ensures
        frontmatter(fence() + m + header_end() + d) == (trim(m), trim(d)),
{
    let content = fence() + m + header_end() + d;
    assert(content[0] == '-');
    assert(!is_white_space('-'));
    lemma_trim_start_first(content);
    assert(content.take(3) =~= fence());
    let rest = content.skip(3);
    assert(rest =~= m + (header_end() + d));
    assert((header_end() + d).take(4) =~= header_end());
    lemma_first_header_end(m, header_end() + d);
    let ml = m.len();
    assert(rest.take(ml as int) =~= m);
    assert(rest.skip(ml + 4int) =~= d);
}

/// In `m + "\n---" + d`, with no line break followed by `---` in `m`, the first
/// one is the one right after `m`.
proof fn lemma_first_header_end(m: Seq<char>, e: Seq<char>)
    requires
        find_from(m, header_end(), 0) is None,
        e.len() >= 4,
        e.take(4) == header_end(),
    ensures
        find_from(m + e, header_end(), 0) == Some(m.len()),
{
    let rest = m + e;
    let ml = m.len();
    assert(rest.subrange(ml as int, ml + 4int) =~= header_end());
    lemma_find_from(m, header_end(), 0);
    assert forall|j: int| 0 <= j < ml implies !occurs_at(rest, header_end(), j) by {
        if occurs_at(rest, header_end(), j) {
            if j + 4 <= ml {
                assert(m.subrange(j, j + 4) =~= rest.subrange(j, j + 4));
                assert(occurs_at(m, header_end(), j));
            } else {
                // the line break that closes the header lands on a `-` of `---`
                let o = ml - j;
                assert(rest.subrange(j, j + 4)[o] == rest[ml as int]);
                assert(rest[ml as int] == e.take(4)[0]);
                assert(header_end()[o] == '-');
            }
        }
    }
    lemma_find_from_first(rest, header_end(), 0, ml);
}

/// In `"\n" + header + "---\n" + description`, the header ends at the first
/// line break followed by `---`, when the header ends in a line break (or is
/// empty) and no line of it starts with `---`.
proof fn lemma_header_end_found(h: Seq<char>, d: Seq<char>)
    requires
        h.len() == 0 || h.last() == '\n',
        find_from(seq!['\n'] + h, header_end(), 0) is None,
    ensures
        find_from(seq!['\n'] + h + (fence().push('\n') + d), header_end(), 0) == Some(h.len()),
{
    let lead = seq!['\n'] + h;
    let rest = lead + (fence().push('\n') + d);
    let hl = h.len();
    assert(rest[hl as int] == '\n') by {
        if hl > 0 {
            assert(rest[hl as int] == h[hl - 1]);
        }
    }
    assert(rest.subrange(hl as int, hl + 4int) =~= header_end());
    lemma_find_from(lead, header_end(), 0);
    assert forall|j: int| 0 <= j < hl implies !occurs_at(rest, header_end(), j) by {
        if occurs_at(rest, header_end(), j) {
            if j + 4 <= lead.len() {
                assert(lead.subrange(j, j + 4) =~= rest.subrange(j, j + 4));
                assert(occurs_at(lead, header_end(), j));
            } else {
                // the line break that ends the header lands on a `-` of `---`
                let o = hl - j;
                assert(rest.subrange(j, j + 4)[o] == rest[hl as int]);
                assert(header_end()[o] == '-');
            }
        }
    }
    lemma_find_from_first(rest, header_end(), 0, hl);
}

/// A task file written from a header and a description reads back as that
/// header and that description, trimmed; the header must end in a line break
/// (or be empty), and no line of it may start with `---`.
pub proof fn lemma_frontmatter_round_trip(header_yaml: Seq<char>, description: Seq<char>)
    requires
        header_yaml.len() == 0 || header_yaml.last() == '\n',
        find_from(seq!['\n'] + header_yaml, header_end(), 0) is None,
    ensures
        frontmatter(task_file_text(header_yaml, description)) == (
            trim(header_yaml),
            trim(description),
        ),
{
    let h = header_yaml;
    let d = description;
    let content = task_file_text(h, d);
    let nl: Seq<char> = seq!['\n'];
    let empty: Seq<char> = Seq::empty();
    assert(is_white_space('\n'));
    assert(content[0] == '-');
    lemma_trim_start_first(content);
    assert(content.take(3) =~= fence());
    let rest = content.skip(3);
    assert(rest =~= nl + h + (fence().push('\n') + d));
    lemma_header_end_found(h, d);
    let hl = h.len();
    // the header, trimmed
    assert(trim(rest.take(hl as int)) == trim(h)) by {
        if hl > 0 {
            let core = h.drop_last();
            assert(rest.take(hl as int) =~= nl + core + empty);
            assert(h =~= empty + core + nl);
            lemma_trim_surrounding(nl, core, empty);
            lemma_trim_surrounding(empty, core, nl);
        } else {
            assert(rest.take(0) =~= h);
        }
    }
    // the description, trimmed
    assert(trim(rest.skip(hl + 4int)) == trim(d)) by {
        assert(rest.skip(hl + 4int) =~= nl + d + empty);
        assert(d =~= empty + d + empty);
        lemma_trim_surrounding(nl, d, empty);
        lemma_trim_surrounding(empty, d, empty);
    }
}

/// A file of the task directory that holds a task: all but `meta.yaml`.
pub open spec fn is_task_file_name(file_name: Seq<char>) -> bool {
    file_name != "meta.yaml"@
}

/// `meta.yaml` is the one file of the task directory that holds no task:
/// every other name, whatever its length or extension, holds one.
pub proof fn lemma_task_file_names(file_name: Seq<char>)
    ensures
        !is_task_file_name("meta.yaml"@),
        file_name != "meta.yaml"@ ==> is_task_file_name(file_name),
{
}

impl MDRepository {
    /// Opens the repository of a working directory: its `.tasks` directory.
    /// A working directory that is a file is refused.
    pub fn new(working_directory: &str, working_directory_is_file: bool) -> (r: Result<
        MDRepository,
        InitError,
    >)
        ensures
            working_directory_is_file ==> r == Err::<MDRepository, InitError>(
                InitError::InvalidWorkingDirectory,
            ),
            !working_directory_is_file ==> (r matches Ok(repo) && repo@ == path_join(
                working_directory@,
                ".tasks"@,
            )),
    {
        if working_directory_is_file {
            return Err(InitError::InvalidWorkingDirectory);
        }
        let tasks_directory = push_path(working_directory, ".tasks");
        Ok(MDRepository { tasks_directory })
    }

    /// The directory that holds the task files.
    pub fn tasks_directory(&self) -> (r: &String)
        ensures
            r@ == self@,
    {
        &self.tasks_directory
    }

    /// The path of the file that stores `task`: its slug, with `.md`, in the
    /// task directory.
    pub fn task_file_path(&self, task: &Task) -> (r: String)
        ensures
            r@ == path_join(self@, slug(task.title@)) + ".md"@,
    {
        let slug = get_task_slug(task);
        let mut path = push_path(self.tasks_directory.as_str(), slug.as_str());
        path.append(".md");
        path
    }

    /// Whether a file of the task directory holds a task.
    pub fn is_task_file(file_name: &str) -> (r: bool)
        ensures
            r == is_task_file_name(file_name@),
            r <==> file_name@ != "meta.yaml"@,
    {
        let name = String::from_str(file_name);
        let meta = String::from_str("meta.yaml");
        !(name == meta)
    }
}

} // verus!
