//! Splitting one command stage into its arguments.
use vstd::prelude::*;
use vstd::string::StrSliceExecFns;
use vstd::string::StringExecFns;
use crate::views;

verus! {

/// Whether `c` opens or closes a quoted span.
pub open spec fn is_quote(c: char) -> bool {
    c == '"' || c == '\''
}

/// The tokens of `s`, given the partial token `word` gathered so far and
/// whether a quoted span is open (`quoted`).
///
/// Outside quotes a space ends the current token (empty tokens are never
/// emitted); a quote character toggles the quoted state and is dropped;
/// every other character, and a space inside quotes, extends the token.
pub open spec fn tokens_from(s: Seq<char>, word: Seq<char>, quoted: bool) -> Seq<Seq<char>>
    decreases s.len(),
{
    if s.len() == 0 {
        if word.len() > 0 { seq![word] } else { seq![] }
    } else {
        let c = s[0];
        let rest = s.drop_first();
        if c == ' ' && !quoted {
            if word.len() > 0 {
                seq![word] + tokens_from(rest, seq![], quoted)
            } else {
                tokens_from(rest, word, quoted)
            }
        } else if is_quote(c) {
            tokens_from(rest, word, !quoted)
        } else {
            tokens_from(rest, word.push(c), quoted)
        }
    }
}

/// The tokens of a whole stage string.
pub open spec fn tokens(s: Seq<char>) -> Seq<Seq<char>> {
    tokens_from(s, seq![], false)
}

/// Whether `t` holds no quote character.
pub open spec fn quote_free(t: Seq<char>) -> bool {
    forall|k: int| 0 <= k < t.len() ==> !is_quote(#[trigger] t[k])
}

proof fn lemma_tokens_from_clean(s: Seq<char>, word: Seq<char>, quoted: bool)
    requires
        quote_free(word),
    ensures
        forall|i: int| 0 <= i < tokens_from(s, word, quoted).len() ==> {
            &&& #[trigger] tokens_from(s, word, quoted)[i].len() > 0
            &&& quote_free(tokens_from(s, word, quoted)[i])
        },
    decreases s.len(),
{
    if s.len() == 0 {
        if word.len() > 0 {
            assert(tokens_from(s, word, quoted) == seq![word]);
        }
    } else {
        let c = s[0];
        let rest = s.drop_first();
        if c == ' ' && !quoted {
            if word.len() > 0 {
                lemma_tokens_from_clean(rest, seq![], quoted);
                let tail = tokens_from(rest, seq![], quoted);
                let all = seq![word] + tail;
                assert(tokens_from(s, word, quoted) == all);
                assert forall|i: int| 0 <= i < all.len() implies #[trigger] all[i].len() > 0
                    && quote_free(all[i]) by {
                    if i > 0 {
                        assert(all[i] == tail[i - 1]);
                    } else {
                        assert(all[i] == word);
                    }
                }
            } else {
                lemma_tokens_from_clean(rest, word, quoted);
                assert(tokens_from(s, word, quoted) == tokens_from(rest, word, quoted));
            }
        } else if is_quote(c) {
            lemma_tokens_from_clean(rest, word, !quoted);
            assert(tokens_from(s, word, quoted) == tokens_from(rest, word, !quoted));
        } else {
            assert(quote_free(word.push(c))) by {
                assert forall|k: int| 0 <= k < word.push(c).len() implies !is_quote(#[trigger] word.push(c)[k]) by {
                    if k < word.len() {
                        assert(word.push(c)[k] == word[k]);
                    }
                }
            }
            lemma_tokens_from_clean(rest, word.push(c), quoted);
            assert(tokens_from(s, word, quoted) == tokens_from(rest, word.push(c), quoted));
        }
    }
}

/// Tokens are never empty and never hold a quote character.
pub proof fn lemma_tokens_clean(s: Seq<char>)
    ensures
        forall|i: int| 0 <= i < tokens(s).len() ==> {
            &&& #[trigger] tokens(s)[i].len() > 0
            &&& quote_free(tokens(s)[i])
        },
{
    lemma_tokens_from_clean(s, seq![], false);
}

/// Splits a command stage into tokens: the program name, then its arguments.
pub fn parse_command(cmd: &str) -> (r: Vec<String>)
    ensures
        views(r@) == tokens(cmd@),
        forall|i: int| 0 <= i < r@.len() ==> (#[trigger] r@[i])@.len() > 0 && quote_free(r@[i]@),
{
    proof {
        lemma_tokens_clean(cmd@);
    }
    let n = cmd.unicode_len();
    let mut res: Vec<String> = Vec::new();
    let mut word = String::new();
    let mut quoted = false;
    let mut i: usize = 0;
    proof {
        assert(cmd@.subrange(0, n as int) == cmd@);
        assert(views(res@) == Seq::<Seq<char>>::empty());
        assert(views(res@) + tokens(cmd@) == tokens(cmd@));
    }
    while i < n
        invariant
            n == cmd@.len(),
            i <= n,
            views(res@) + tokens_from(cmd@.subrange(i as int, n as int), word@, quoted)
                == tokens(cmd@),
        decreases n - i,
    {
        let c = cmd.get_char(i);
        let ghost rest = cmd@.subrange(i as int, n as int);
        assert(rest.drop_first() == cmd@.subrange(i + 1, n as int));
        assert(rest[0] == c);
        let ghost done = views(res@);
        let ghost old_word = word@;
        let ghost old_quoted = quoted;
        if c == ' ' && !quoted {
            if word.unicode_len() > 0 {
                proof {
                    assert(views(res@.push(word)) == views(res@) + seq![word@]);
                }
                res.push(word);
                word = String::new();
                proof {
                    assert(views(res@) + tokens_from(rest.drop_first(), word@, quoted) == done
                        + tokens_from(rest, old_word, quoted)) by {
                        assert(seq![old_word] + tokens_from(rest.drop_first(), seq![], quoted)
                            == tokens_from(rest, old_word, quoted));
                        assert(views(res@) == done + seq![old_word]);
                        assert(word@ == Seq::<char>::empty());
                        assert(done + seq![old_word] + tokens_from(rest.drop_first(), seq![], quoted)
                            == done + (seq![old_word] + tokens_from(rest.drop_first(), seq![], quoted)));
                    }
                }
            }
        } else if c == '"' || c == '\'' {
            quoted = !quoted;
        } else {
            let one = cmd.substring_char(i, i + 1);
            proof {
                assert(one@ == seq![c]);
            }
            word.append(one);
            assert(word@ =~= old_word.push(c));
        }
        i = i + 1;
        assert(views(res@) + tokens_from(cmd@.subrange(i as int, n as int), word@, quoted)
            == done + tokens_from(rest, old_word, old_quoted));
    }
    proof {
        assert(cmd@.subrange(n as int, n as int) == Seq::<char>::empty());
    }
    if word.unicode_len() > 0 {
        proof {
            assert(views(res@.push(word)) == views(res@) + seq![word@]);
        }
        res.push(word);
    } else {
        proof {
            assert(views(res@) + Seq::<Seq<char>>::empty() == views(res@));
        }
    }
    assert forall|i: int| 0 <= i < res@.len() implies (#[trigger] res@[i])@.len() > 0 && quote_free(
        res@[i]@,
    ) by {
        assert(views(res@)[i] == res@[i]@);
    }
    res
}

} // verus!
