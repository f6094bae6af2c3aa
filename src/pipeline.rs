//! Splitting a command line into pipeline stages.
use vstd::prelude::*;
use vstd::string::StrSliceExecFns;
use vstd::string::StringExecFns;
use crate::views;
use crate::tokenize::{parse_command, tokens};

verus! {

/// Whether `s` starts with the stage delimiter: a space, a pipe, a space.
pub open spec fn starts_with_delimiter(s: Seq<char>) -> bool {
    s.len() >= 3 && s[0] == ' ' && s[1] == '|' && s[2] == ' '
}

/// The stage strings of `s`, given the part `cur` of the current stage that
/// was read already. Delimiters are matched leftmost first and never overlap.
pub open spec fn stages_from(s: Seq<char>, cur: Seq<char>) -> Seq<Seq<char>>
    decreases s.len(),
{
    if s.len() == 0 {
        seq![cur]
    } else if starts_with_delimiter(s) {
        seq![cur] + stages_from(s.subrange(3, s.len() as int), seq![])
    } else {
        stages_from(s.drop_first(), cur.push(s[0]))
    }
}

/// The stage strings of a command line, split on `" | "`.
pub open spec fn stage_strings(s: Seq<char>) -> Seq<Seq<char>> {
    stages_from(s, seq![])
}

/// The stages of a command line, each as its tokens.
pub open spec fn stage_tokens(s: Seq<char>) -> Seq<Seq<Seq<char>>> {
    stage_strings(s).map_values(|st: Seq<char>| tokens(st))
}

/// Whether a stage has no tokens, so names no program.
pub open spec fn stage_is_empty(s: Seq<char>, i: int) -> bool {
    tokens(stage_strings(s)[i]).len() == 0
}

/// The stage strings joined back with `" | "` between them.
pub open spec fn join_stages(st: Seq<Seq<char>>) -> Seq<char>
    decreases st.len(),
{
    if st.len() <= 1 {
        if st.len() == 0 { seq![] } else { st[0] }
    } else {
        st[0] + seq![' ', '|', ' '] + join_stages(st.drop_first())
    }
}

/// Whether `s` holds no pipe character.
pub open spec fn pipe_free(s: Seq<char>) -> bool {
    forall|k: int| 0 <= k < s.len() ==> s[k] != '|'
}

proof fn lemma_stages_from_last(x: Seq<char>, cur: Seq<char>)
    requires
        pipe_free(x),
    ensures
        stages_from(x, cur) == seq![cur + x],
    decreases x.len(),
{
    if x.len() == 0 {
        assert(cur + x == cur);
    } else {
        assert(!starts_with_delimiter(x));
        lemma_stages_from_last(x.drop_first(), cur.push(x[0]));
        assert(cur.push(x[0]) + x.drop_first() == cur + x);
    }
}

proof fn lemma_stages_from_first(x: Seq<char>, r: Seq<char>, cur: Seq<char>)
    requires
        pipe_free(x),
    ensures
        stages_from(x + seq![' ', '|', ' '] + r, cur) == seq![cur + x] + stages_from(r, seq![]),
    decreases x.len(),
{
    let s = x + seq![' ', '|', ' '] + r;
    if x.len() == 0 {
        assert(s == seq![' ', '|', ' '] + r);
        assert(starts_with_delimiter(s));
        assert(s.subrange(3, s.len() as int) == r);
        assert(cur + x == cur);
    } else {
        assert(s[0] == x[0]);
        assert(!starts_with_delimiter(s)) by {
            if x.len() >= 2 {
                assert(s[1] == x[1]);
            } else {
                assert(s[1] == ' ');
            }
        }
        assert(s.drop_first() == x.drop_first() + seq![' ', '|', ' '] + r);
        lemma_stages_from_first(x.drop_first(), r, cur.push(x[0]));
        assert(cur.push(x[0]) + x.drop_first() == cur + x);
    }
}

/// Joining pipe-free stage strings with `" | "` and splitting the result
/// gives back the same stages.
pub proof fn lemma_split_join(st: Seq<Seq<char>>)
    requires
        st.len() >= 1,
        forall|i: int| 0 <= i < st.len() ==> pipe_free(#[trigger] st[i]),
    ensures
        stage_strings(join_stages(st)) == st,
    decreases st.len(),
{
    if st.len() == 1 {
        lemma_stages_from_last(st[0], seq![]);
        assert(seq![] + st[0] == st[0]);
        assert(seq![st[0]] == st);
    } else {
        let rest = st.drop_first();
        assert forall|i: int| 0 <= i < rest.len() implies pipe_free(#[trigger] rest[i]) by {
            assert(rest[i] == st[i + 1]);
        }
        lemma_split_join(rest);
        lemma_stages_from_first(st[0], join_stages(rest), seq![]);
        assert(seq![] + st[0] == st[0]);
        assert(seq![st[0]] + rest == st);
    }
}

/// In a pipeline of pipe-free stages, the stages before the last one are
/// exactly the stages of the pipeline that ends one stage earlier: the last
/// stage reads what that shorter pipeline would have produced.
pub proof fn lemma_prefix_pipeline(st: Seq<Seq<char>>)
    requires
        st.len() >= 2,
        forall|i: int| 0 <= i < st.len() ==> pipe_free(#[trigger] st[i]),
    ensures
        stage_tokens(join_stages(st.drop_last())) == stage_tokens(join_stages(st)).drop_last(),
        stage_tokens(join_stages(st)).last() == tokens(st.last()),
{
    let pre = st.drop_last();
    assert forall|i: int| 0 <= i < pre.len() implies pipe_free(#[trigger] pre[i]) by {
        assert(pre[i] == st[i]);
    }
    lemma_split_join(st);
    lemma_split_join(pre);
    assert(stage_tokens(join_stages(pre)) =~= stage_tokens(join_stages(st)).drop_last());
}

/// Why a command line could not be turned into a pipeline.
#[derive(Debug, Clone, Copy, PartialEq, Eq, Structural)]
pub enum ParseError {
    /// The command line holds no program name at all.
    NoCommand,
    /// The stage at `index` of several holds no program name.
    EmptyStage { index: usize },
}

/// Splits a command line into its stage strings on the delimiter `" | "`.
pub fn split_stages(cmd: &str) -> (r: Vec<String>)
    ensures
        views(r@) == stage_strings(cmd@),
        r@.len() >= 1,
{
    let n = cmd.unicode_len();
    let mut res: Vec<String> = Vec::new();
    let mut cur = String::new();
    let mut i: usize = 0;
    proof {
        assert(cmd@.subrange(0, n as int) == cmd@);
        assert(views(res@) + stage_strings(cmd@) == stage_strings(cmd@));
    }
    while i < n
        invariant
            n == cmd@.len(),
            i <= n,
            views(res@) + stages_from(cmd@.subrange(i as int, n as int), cur@)
                == stage_strings(cmd@),
        decreases n - i,
    {
        let ghost rest = cmd@.subrange(i as int, n as int);
        let ghost done = views(res@);
        let ghost old_cur = cur@;
        let at_delimiter = n - i >= 3 && cmd.get_char(i) == ' ' && cmd.get_char(i + 1) == '|'
            && cmd.get_char(i + 2) == ' ';
        assert(at_delimiter == starts_with_delimiter(rest));
        if at_delimiter {
            proof {
                assert(rest.subrange(3, rest.len() as int) == cmd@.subrange(i + 3, n as int));
                assert(views(res@.push(cur)) == done + seq![old_cur]);
            }
            res.push(cur);
            cur = String::new();
            i = i + 3;
            proof {
                assert(done + seq![old_cur] + stages_from(cmd@.subrange(i as int, n as int), seq![])
                    == done + (seq![old_cur] + stages_from(cmd@.subrange(i as int, n as int), seq![])));
            }
        } else {
            let one = cmd.substring_char(i, i + 1);
            cur.append(one);
            assert(cur@ =~= old_cur.push(rest[0]));
            assert(rest.drop_first() == cmd@.subrange(i + 1, n as int));
            i = i + 1;
        }
        assert(views(res@) + stages_from(cmd@.subrange(i as int, n as int), cur@)
            == done + stages_from(rest, old_cur));
    }
    proof {
        assert(cmd@.subrange(n as int, n as int) == Seq::<char>::empty());
        assert(views(res@.push(cur)) == views(res@) + seq![cur@]);
    }
    res.push(cur);
    res
}

/// The tokens that a vector of parsed stages holds.
pub open spec fn stage_views(v: Seq<Vec<String>>) -> Seq<Seq<Seq<char>>> {
    v.map_values(|st: Vec<String>| views(st@))
}

/// Whether every stage of the command line names a program.
pub open spec fn all_stages_named(s: Seq<char>) -> bool {
    forall|i: int| 0 <= i < stage_strings(s).len() ==> !#[trigger] stage_is_empty(s, i)
}

/// Parses a command line into its stages, each the tokens of one program
/// invocation. Fails when some stage names no program: with `NoCommand` when
/// the line is a single such stage, else with the index of the first one.
pub fn parse_pipeline(cmd: &str) -> (r: Result<Vec<Vec<String>>, ParseError>)
    ensures
        r is Ok <==> all_stages_named(cmd@),
        match r {
            Ok(v) => stage_views(v@) == stage_tokens(cmd@),
            Err(ParseError::NoCommand) => stage_strings(cmd@).len() == 1 && stage_is_empty(cmd@, 0),
            Err(ParseError::EmptyStage { index }) => {
                &&& stage_strings(cmd@).len() > 1
                &&& index < stage_strings(cmd@).len()
                &&& stage_is_empty(cmd@, index as int)
                &&& forall|j: int| 0 <= j < index ==> !#[trigger] stage_is_empty(cmd@, j)
            },
        },
{
    let parts = split_stages(cmd);
    let mut res: Vec<Vec<String>> = Vec::new();
    let mut i: usize = 0;
    while i < parts.len()
        invariant
            views(parts@) == stage_strings(cmd@),
            parts@.len() >= 1,
            i <= parts@.len(),
            res@.len() == i,
            forall|j: int| 0 <= j < i ==> !#[trigger] stage_is_empty(cmd@, j),
            forall|j: int| 0 <= j < i ==> views(#[trigger] res@[j]@) == tokens(stage_strings(cmd@)[j]),
        decreases parts@.len() - i,
    {
        assert(parts@[i as int]@ == stage_strings(cmd@)[i as int]);
        let toks = parse_command(parts[i].as_str());
        if toks.len() == 0 {
            assert(views(toks@).len() == 0);
            assert(stage_is_empty(cmd@, i as int));
            if parts.len() == 1 {
                return Err(ParseError::NoCommand);
            } else {
                return Err(ParseError::EmptyStage { index: i });
            }
        }
        res.push(toks);
        i = i + 1;
    }
    assert(stage_views(res@) =~= stage_tokens(cmd@));
    Ok(res)
}

} // verus!
