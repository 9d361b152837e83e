//! Splitting a raw pipeline expression into stages.
//!
//! An expression such as `"cat file | grep 'a'"` is first split on the
//! pipe character into segments, and each segment is then tokenized with
//! shell-style word splitting (quoting and escaping honoured).  The first
//! word of a segment names the stage's executable, the remaining words are
//! its arguments.  A segment that yields no words at all (consecutive
//! pipes, a whitespace-only segment, or a segment with unbalanced quotes)
//! makes the whole expression malformed: it would describe a process with
//! an empty name.

use vstd::prelude::*;

use crate::errors::PipelineError;

verus! {

/// One stage of a pipeline: an executable name and its arguments.
#[derive(Debug, PartialEq)]
pub struct PipelineCommand {
    pub name: String,
    pub args: Vec<String>,
}

/// A deep copy of a word list.
fn clone_strings(v: &Vec<String>) -> (r: Vec<String>)
    ensures
        r@ == v@,
{
    let n = v.len();
    let mut r: Vec<String> = Vec::new();
    let mut i: usize = 0;
    while i < n
        invariant
            0 <= i <= n,
            n == v@.len(),
            r@.len() == i,
            forall|k: int| 0 <= k < i ==> r@[k] == v@[k],
        decreases n - i,
    {
        r.push(v[i].clone());
        i = i + 1;
    }
    proof {
        assert(r@ =~= v@);
    }
    r
}

impl Clone for PipelineCommand {
    /// A clone is the same stage: same executable name, same arguments.
    fn clone(&self) -> (r: Self)
        ensures
            r.name == self.name,
            r.args@ == self.args@,
    {
        PipelineCommand { name: self.name.clone(), args: clone_strings(&self.args) }
    }
}

impl PipelineCommand {
    /// Builds a stage from a non-empty word list: the first word is the
    /// executable's name, the rest are its arguments.
    pub fn new(cmd: Vec<String>) -> (r: PipelineCommand)
        requires
            cmd@.len() > 0,
        ensures
            r.name == cmd@[0],
            r.args@ == cmd@.drop_first(),
    {
        let ghost orig = cmd@;
        let mut words = cmd;
        let name = words.remove(0);
        proof {
            assert(words@ =~= orig.drop_first());
        }
        PipelineCommand { name, args: words }
    }
}

/// What shell-style word splitting yields on a segment: `None` when the
/// segment is erroneous (for example an unbalanced quote), otherwise the
/// ordered words with quotes and escapes resolved.  The result depends on
/// the characters of the segment alone.
pub uninterp spec fn shell_words(s: Seq<char>) -> Option<Seq<Seq<char>>>;

/// The views of a sequence of strings.
pub open spec fn views_of(ws: Seq<String>) -> Seq<Seq<char>> {
    ws.map_values(|w: String| w@)
}

/// Relies on shlex::split: shell-style word splitting of the whole input,
/// `None` exactly when the input is erroneous; the outcome is a function
/// of the input string alone.
#[verifier::external_body]
fn shlex_split(s: &str) -> (r: Option<Vec<String>>)
    ensures
        r is Some <==> shell_words(s@) is Some,
        r matches Some(ws) ==> views_of(ws@) == shell_words(s@).unwrap(),
{
    shlex::split(s)
}

/// Splitting a character sequence on `'|'`, the way `str::split('|')`
/// does it: the result always holds at least one segment, and consecutive
/// pipes yield empty segments.
pub open spec fn split_pipe(s: Seq<char>) -> Seq<Seq<char>>
    decreases s.len(),
{
    if s.len() == 0 {
        seq![Seq::<char>::empty()]
    } else if s[0] == '|' {
        seq![Seq::<char>::empty()] + split_pipe(s.drop_first())
    } else {
        let rest = split_pipe(s.drop_first());
        seq![seq![s[0]] + rest[0]] + rest.drop_first()
    }
}

pub proof fn lemma_split_pipe_len(s: Seq<char>)
    ensures
        split_pipe(s).len() >= 1,
    decreases s.len(),
{
    if s.len() != 0 {
        lemma_split_pipe_len(s.drop_first());
    }
}

/// A segment free of pipes splits to itself alone.
pub proof fn lemma_split_pipe_no_pipe(s: Seq<char>)
    requires
        forall|i: int| 0 <= i < s.len() ==> s[i] != '|',
    ensures
        split_pipe(s) == seq![s],
    decreases s.len(),
{
    if s.len() == 0 {
        assert(split_pipe(s) =~~= seq![s]);
    } else {
        lemma_split_pipe_no_pipe(s.drop_first());
        assert(seq![s[0]] + s.drop_first() =~= s);
        assert(split_pipe(s) =~~= seq![s]);
    }
}

/// Splitting at the first pipe: everything before it is the first
/// segment, and the rest of the split is the split of what follows it.
pub proof fn lemma_split_pipe_head(s: Seq<char>, k: int)
    requires
        0 <= k < s.len(),
        s[k] == '|',
        forall|i: int| 0 <= i < k ==> s[i] != '|',
    ensures
        split_pipe(s) == seq![s.subrange(0, k)] + split_pipe(s.subrange(k + 1, s.len() as int)),
    decreases k,
{
    if k == 0 {
        assert(s.drop_first() =~= s.subrange(1, s.len() as int));
        assert(s.subrange(0, 0) =~= Seq::<char>::empty());
        assert(split_pipe(s) =~~= seq![s.subrange(0, 0)] + split_pipe(
            s.subrange(1, s.len() as int),
        ));
    } else {
        let t = s.drop_first();
        assert(forall|i: int| 0 <= i < k - 1 ==> t[i] != '|');
        lemma_split_pipe_head(t, k - 1);
        assert(seq![s[0]] + t.subrange(0, k - 1) =~= s.subrange(0, k));
        assert(t.subrange(k, t.len() as int) =~= s.subrange(k + 1, s.len() as int));
        assert(split_pipe(s) =~~= seq![s.subrange(0, k)] + split_pipe(
            s.subrange(k + 1, s.len() as int),
        ));
    }
}

/// Splits a raw expression on the pipe character; segments keep their
/// surrounding whitespace (the tokenizer discards it later).
pub fn split_on_pipe(raw: &str) -> (segs: Vec<String>)
    ensures
        views_of(segs@) == split_pipe(raw@),
        segs@.len() >= 1,
{
    let n = raw.unicode_len();
    let mut segs: Vec<String> = Vec::new();
    let mut start: usize = 0;
    let mut i: usize = 0;
    proof {
        assert(views_of(segs@) =~= Seq::<Seq<char>>::empty());
        assert(raw@.subrange(0, n as int) =~= raw@);
        assert(split_pipe(raw@) =~= views_of(segs@) + split_pipe(raw@.subrange(0, n as int)));
    }
    while i < n
        invariant
            0 <= start <= i <= n,
            n == raw@.len(),
            forall|j: int| start <= j < i ==> raw@[j] != '|',
            split_pipe(raw@) == views_of(segs@) + split_pipe(
                raw@.subrange(start as int, n as int),
            ),
        decreases n - i,
    {
        if raw.get_char(i) == '|' {
            let seg = raw.substring_char(start, i);
            proof {
                let suffix = raw@.subrange(start as int, n as int);
                lemma_split_pipe_head(suffix, i - start);
                assert(suffix.subrange(0, i - start) =~= raw@.subrange(start as int, i as int));
                assert(suffix.subrange(i - start + 1, suffix.len() as int) =~= raw@.subrange(
                    i as int + 1,
                    n as int,
                ));
            }
            let ghost old_segs = segs@;
            segs.push(seg.to_owned());
            proof {
                assert(views_of(segs@) =~= views_of(old_segs) + seq![raw@.subrange(start as int, i as int)]);
            }
            start = i + 1;
        }
        i = i + 1;
    }
    let seg = raw.substring_char(start, n);
    proof {
        let suffix = raw@.subrange(start as int, n as int);
        lemma_split_pipe_no_pipe(suffix);
    }
    let ghost old_segs = segs@;
    segs.push(seg.to_owned());
    proof {
        assert(views_of(segs@) =~= views_of(old_segs) + seq![raw@.subrange(start as int, n as int)]);
        assert(views_of(segs@) =~= split_pipe(raw@));
        lemma_split_pipe_len(raw@);
    }
    segs
}

/// The words of one segment: what shell splitting yields, with an
/// erroneous segment standing for no words at all.
pub open spec fn segment_words(seg: Seq<char>) -> Seq<Seq<char>> {
    match shell_words(seg) {
        Some(ws) => ws,
        None => Seq::empty(),
    }
}

/// A well-formed expression: every segment tokenizes to at least one word.
pub open spec fn parse_ok(s: Seq<char>) -> bool {
    forall|i: int| 0 <= i < split_pipe(s).len() ==> segment_words(split_pipe(s)[i]).len() > 0
}

/// The stage a word list describes: first word the name, rest the
/// arguments.
pub open spec fn command_matches_words(cmd: PipelineCommand, ws: Seq<Seq<char>>) -> bool {
    &&& ws.len() > 0
    &&& cmd.name@ == ws[0]
    &&& views_of(cmd.args@) == ws.drop_first()
}

/// The full parse contract: one stage per pipe-separated segment, each
/// built from that segment's shell words.
pub open spec fn parsed_pipeline(s: Seq<char>, cmds: Seq<PipelineCommand>) -> bool {
    &&& cmds.len() == split_pipe(s).len()
    &&& forall|i: int|
        0 <= i < cmds.len() ==> command_matches_words(
            cmds[i],
            segment_words(split_pipe(s)[i]),
        )
}

/// Parses a raw pipeline expression into its ordered stages.  Fails, and
/// only fails, when some segment tokenizes to no words — consecutive
/// pipes, a whitespace-only segment, or a segment that shell splitting
/// rejects.
pub fn parse_raw_pipeline(raw: &str) -> (r: Result<Vec<PipelineCommand>, PipelineError>)
    ensures
        r is Ok <==> parse_ok(raw@),
        r matches Ok(cmds) ==> parsed_pipeline(raw@, cmds@),
        r matches Err(e) ==> e is ParseError,
{
    let segs = split_on_pipe(raw);
    let mut cmds: Vec<PipelineCommand> = Vec::new();
    let mut k: usize = 0;
    while k < segs.len()
        invariant
            0 <= k <= segs@.len(),
            views_of(segs@) == split_pipe(raw@),
            cmds@.len() == k,
            forall|i: int|
                0 <= i < k ==> command_matches_words(
                    #[trigger] cmds@[i],
                    segment_words(split_pipe(raw@)[i]),
                ),
        decreases segs@.len() - k,
    {
        let ghost seg_view = split_pipe(raw@)[k as int];
        proof {
            assert(segs@[k as int]@ == views_of(segs@)[k as int]);
        }
        match shlex_split(segs[k].as_str()) {
            None => {
                proof {
                    assert(segment_words(seg_view).len() == 0);
                    assert(!parse_ok(raw@));
                }
                return Err(PipelineError::ParseError);
            },
            Some(words) => {
                if words.is_empty() {
                    proof {
                        assert(segment_words(seg_view).len() == 0);
                        assert(!parse_ok(raw@));
                    }
                    return Err(PipelineError::ParseError);
                }
                let cmd = PipelineCommand::new(words);
                proof {
                    assert(views_of(cmd.args@) =~= segment_words(seg_view).drop_first());
                }
                cmds.push(cmd);
            },
        }
        k = k + 1;
    }
    proof {
        assert forall|i: int|
            0 <= i < split_pipe(raw@).len() implies segment_words(
            split_pipe(raw@)[i],
        ).len() > 0 by {
            assert(command_matches_words(cmds@[i], segment_words(split_pipe(raw@)[i])));
        }
    }
    Ok(cmds)
}

/// An expression with a stage that tokenizes to no words at all — a
/// whitespace-only segment, consecutive pipes, or a segment that shell
/// splitting rejects — is malformed, so `parse_raw_pipeline` rejects it
/// rather than silently dropping the stage.
pub proof fn lemma_empty_stage_rejected(s: Seq<char>, i: int)
    requires
        0 <= i < split_pipe(s).len(),
        segment_words(split_pipe(s)[i]).len() == 0,
    ensures
        !parse_ok(s),
{
}

} // verus!
