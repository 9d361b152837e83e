//! The deterministic file-system locations a pipeline uses, derived from
//! its name: the metadata directory that carries the head-pid record, the
//! logging directory that collects each stage's standard error, and the
//! small path computations (parent directory, file stem) the supervisor's
//! surroundings need.

use vstd::prelude::*;

verus! {

/// Root under which each pipeline's stage logs live.
pub const LOGGING_DIR: &'static str = "/tmp/plumber/log";

/// Root under which each pipeline's metadata (the head-pid record) lives.
pub const METADATA_DIR: &'static str = "/tmp/plumber/lib";

/// A directory entry's path: the directory, a separator, the entry.
pub open spec fn joined(dir: Seq<char>, entry: Seq<char>) -> Seq<char> {
    dir + seq!['/'] + entry
}

/// Joins a directory and an entry name with a single separator.
pub fn join_path(dir: &str, entry: &str) -> (r: String)
    ensures
        r@ == joined(dir@, entry@),
{
    let mut s = String::from_str(dir);
    s.append("/");
    s.append(entry);
    proof {
        reveal_strlit("/");
        assert(s@ =~= joined(dir@, entry@));
    }
    s
}

/// The metadata directory of the pipeline called `name`.
pub fn metadata_dir_for(name: &str) -> (r: String)
    ensures
        r@ == joined(METADATA_DIR@, name@),
{
    join_path(METADATA_DIR, name)
}

/// The logging directory of the pipeline called `name`.
pub fn logging_dir_for(name: &str) -> (r: String)
    ensures
        r@ == joined(LOGGING_DIR@, name@),
{
    join_path(LOGGING_DIR, name)
}

/// Where the head-pid record of a pipeline lives inside its metadata
/// directory.
pub open spec fn pid_record_path(metadata_dir: Seq<char>) -> Seq<char> {
    joined(metadata_dir, ".pid"@)
}

/// The head-pid record's path under the given metadata directory.
pub fn pid_file_in(metadata_dir: &str) -> (r: String)
    ensures
        r@ == pid_record_path(metadata_dir@),
{
    join_path(metadata_dir, ".pid")
}

/// Where a stage's standard-error log lives: the stage's executable name
/// under the pipeline's logging directory, with the log suffix appended.
pub open spec fn stderr_log_path(logging_dir: Seq<char>, stage_name: Seq<char>) -> Seq<char> {
    joined(logging_dir, stage_name) + ".stderr.log"@
}

/// The standard-error log file of the stage called `stage_name`.
pub fn stderr_log_in(logging_dir: &str, stage_name: &str) -> (r: String)
    ensures
        r@ == stderr_log_path(logging_dir@, stage_name@),
{
    let mut s = join_path(logging_dir, stage_name);
    s.append(".stderr.log");
    s
}

/// The largest index at which `c` occurs in `s`, or `-1` when it does not
/// occur at all.
pub open spec fn last_index_of(s: Seq<char>, c: char) -> int
    decreases s.len(),
{
    if s.len() == 0 {
        -1
    } else if s[s.len() - 1] == c {
        s.len() - 1
    } else {
        last_index_of(s.drop_last(), c)
    }
}

pub proof fn lemma_last_index_of_props(s: Seq<char>, c: char)
    ensures
        -1 <= last_index_of(s, c) < s.len(),
        last_index_of(s, c) >= 0 ==> s[last_index_of(s, c)] == c,
        forall|i: int| last_index_of(s, c) < i < s.len() ==> s[i] != c,
    decreases s.len(),
{
    if s.len() > 0 && s[s.len() - 1] != c {
        lemma_last_index_of_props(s.drop_last(), c);
        assert forall|i: int| last_index_of(s, c) < i < s.len() implies s[i] != c by {
            if i < s.len() - 1 {
                assert(s[i] == s.drop_last()[i]);
            }
        }
    }
}

/// Characters past position `j` are all different from `c`, so the last
/// occurrence of `c` in `s` is the last occurrence in the prefix before
/// `j`.
pub proof fn lemma_last_index_of_prefix(s: Seq<char>, c: char, j: int)
    requires
        0 <= j <= s.len(),
        forall|i: int| j <= i < s.len() ==> s[i] != c,
    ensures
        last_index_of(s, c) == last_index_of(s.subrange(0, j), c),
    decreases s.len() - j,
{
    if j == s.len() {
        assert(s.subrange(0, j) =~= s);
    } else {
        assert(s.drop_last() =~= s.subrange(0, s.len() - 1));
        lemma_last_index_of_prefix(s.subrange(0, s.len() - 1), c, j);
        assert(s.subrange(0, s.len() - 1).subrange(0, j) =~= s.subrange(0, j));
    }
}

/// Finds the last occurrence of `c` in `s`.
pub fn find_last(s: &str, c: char) -> (r: Option<usize>)
    ensures
        r matches Some(k) ==> k == last_index_of(s@, c),
        r is None ==> last_index_of(s@, c) == -1,
{
    let n = s.unicode_len();
    let mut j: usize = n;
    while j > 0
        invariant
            0 <= j <= n,
            n == s@.len(),
            forall|i: int| j <= i < s@.len() ==> s@[i] != c,
        decreases j,
    {
        if s.get_char(j - 1) == c {
            proof {
                lemma_last_index_of_prefix(s@, c, j as int);
                assert(s@.subrange(0, j as int).last() == s@[j - 1]);
            }
            return Some(j - 1);
        }
        j = j - 1;
    }
    proof {
        lemma_last_index_of_prefix(s@, c, 0);
        assert(s@.subrange(0, 0) =~= Seq::<char>::empty());
    }
    None
}

/// The parent of a path: everything before the last separator, or the
/// empty path when the path holds no separator.
pub open spec fn parent_dir(s: Seq<char>) -> Seq<char> {
    if last_index_of(s, '/') == -1 {
        Seq::empty()
    } else {
        s.subrange(0, last_index_of(s, '/'))
    }
}

/// The parent directory of `path`.
pub fn parent_dir_of(path: &str) -> (r: String)
    ensures
        r@ == parent_dir(path@),
{
    match find_last(path, '/') {
        Some(k) => {
            proof {
                lemma_last_index_of_props(path@, '/');
            }
            let s = path.substring_char(0, k);
            s.to_owned()
        },
        None => String::new(),
    }
}

/// The portion of a path after its last separator (the whole path when
/// there is none).
pub open spec fn base_name(s: Seq<char>) -> Seq<char> {
    if last_index_of(s, '/') == -1 {
        s
    } else {
        s.subrange(last_index_of(s, '/') + 1, s.len() as int)
    }
}

/// The stem of a file name: everything before the last dot, except that a
/// name whose only dot leads it (a hidden file) is its own stem.
pub open spec fn stem_of(b: Seq<char>) -> Seq<char> {
    if last_index_of(b, '.') >= 1 {
        b.subrange(0, last_index_of(b, '.'))
    } else {
        b
    }
}

/// The pipeline name a source file implies: the file's base name without
/// its extension.
pub fn pipeline_name_from_path(path: &str) -> (r: String)
    ensures
        r@ == stem_of(base_name(path@)),
{
    let n = path.unicode_len();
    let base = match find_last(path, '/') {
        Some(k) => {
            proof {
                lemma_last_index_of_props(path@, '/');
            }
            path.substring_char(k + 1, n)
        },
        None => path.substring_char(0, n),
    };
    proof {
        if last_index_of(path@, '/') == -1 {
            assert(path@.subrange(0, n as int) =~= path@);
        }
        assert(base@ == base_name(path@));
    }
    let m = base.unicode_len();
    match find_last(base, '.') {
        Some(d) if d >= 1 => {
            proof {
                lemma_last_index_of_props(base@, '.');
            }
            base.substring_char(0, d).to_owned()
        },
        _ => base.to_owned(),
    }
}

/// The actionable part of a permission failure: names the directory whose
/// ownership has to change for the supervisor to be able to write under
/// it.
pub fn permission_advice(dir: &str) -> (r: String)
    ensures
        r@ == "plumber requires permission to write in "@ + parent_dir(dir@),
{
    let mut s = String::from_str("plumber requires permission to write in ");
    let parent = parent_dir_of(dir);
    s.append(parent.as_str());
    s
}

} // verus!
