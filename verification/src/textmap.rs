//! Splitting raw map text into its lines.
//!
//! A map is lines separated by `'\n'`; blank lines carry no cells and
//! are discarded. `raw_lines` is the mathematical splitter (it keeps
//! blank lines), `map_lines` the discarded-blanks version the board is
//! built from, and `split_map_lines` the executable splitter proved
//! against them.

use vstd::prelude::*;
use vstd::seq_lib::*;

verus! {

/// The predicate that keeps a line: it has at least one character.
pub open spec fn nonempty_pred() -> spec_fn(Seq<char>) -> bool {
    |l: Seq<char>| l.len() != 0
}

/// Text split at every `'\n'`, blank pieces kept: one piece before the
/// first separator, one between any two, one after the last, so the
/// result is never empty.
pub open spec fn raw_lines(s: Seq<char>) -> Seq<Seq<char>>
    decreases s.len(),
{
    if s.len() == 0 {
        seq![Seq::<char>::empty()]
    } else if s[0] == '\n' {
        seq![Seq::<char>::empty()] + raw_lines(s.drop_first())
    } else {
        let rest = raw_lines(s.drop_first());
        seq![seq![s[0]] + rest[0]] + rest.drop_first()
    }
}

pub proof fn lemma_raw_lines_nonempty(s: Seq<char>)
    ensures
        raw_lines(s).len() >= 1,
    decreases s.len(),
{
    if s.len() != 0 {
        lemma_raw_lines_nonempty(s.drop_first());
    }
}

/// How one appended character changes the split: a separator closes the
/// current piece and opens a blank one; any other character lands at
/// the end of the current piece.
pub proof fn lemma_raw_lines_push(s: Seq<char>, c: char)
    ensures
        c == '\n' ==> raw_lines(s.push(c)) =~~= raw_lines(s).push(Seq::<char>::empty()),
        c != '\n' ==> raw_lines(s.push(c)) =~~= raw_lines(s).update(
            raw_lines(s).len() - 1,
            raw_lines(s).last().push(c),
        ),
    decreases s.len(),
{
    reveal_with_fuel(raw_lines, 3);
    lemma_raw_lines_nonempty(s);
    if s.len() == 0 {
        assert(s.push(c).drop_first() =~= Seq::<char>::empty());
        if c != '\n' {
            assert(seq![c] =~= Seq::<char>::empty().push(c));
        }
    } else {
        let t = s.drop_first();
        lemma_raw_lines_push(t, c);
        lemma_raw_lines_nonempty(t);
        assert(s.push(c).drop_first() =~= t.push(c));
        assert(s.push(c)[0] == s[0]);
        let lt = raw_lines(t).len();
        if s[0] == '\n' {
            if c == '\n' {
                assert(raw_lines(s.push(c)) =~~= raw_lines(s).push(Seq::<char>::empty()));
            } else {
                assert(raw_lines(s.push(c)) =~~= raw_lines(s).update(
                    raw_lines(s).len() - 1,
                    raw_lines(s).last().push(c),
                ));
            }
        } else {
            if c == '\n' {
                assert(raw_lines(t.push(c))[0] =~= raw_lines(t)[0]);
                assert(raw_lines(t.push(c)).drop_first() =~~= raw_lines(t).drop_first().push(
                    Seq::<char>::empty(),
                ));
                assert(raw_lines(s.push(c)) =~~= raw_lines(s).push(Seq::<char>::empty()));
            } else {
                if lt == 1 {
                    assert(raw_lines(t.push(c))[0] =~= raw_lines(t)[0].push(c));
                    assert(raw_lines(t.push(c)).drop_first() =~~= raw_lines(t).drop_first());
                    assert(raw_lines(s).last() =~= seq![s[0]] + raw_lines(t)[0]);
                    assert(seq![s[0]] + raw_lines(t)[0].push(c) =~= (seq![s[0]] + raw_lines(
                        t,
                    )[0]).push(c));
                    assert(raw_lines(s.push(c)) =~~= raw_lines(s).update(
                        raw_lines(s).len() - 1,
                        raw_lines(s).last().push(c),
                    ));
                } else {
                    assert(raw_lines(t.push(c))[0] =~= raw_lines(t)[0]);
                    assert(raw_lines(t.push(c)).drop_first() =~~= raw_lines(
                        t,
                    ).drop_first().update(lt - 2, raw_lines(t).last().push(c)));
                    assert(raw_lines(s).last() =~= raw_lines(t).last());
                    assert(raw_lines(s.push(c)) =~~= raw_lines(s).update(
                        raw_lines(s).len() - 1,
                        raw_lines(s).last().push(c),
                    ));
                }
            }
        }
    }
}

/// The non-blank lines of the text, in order: what the board is built
/// from.
pub open spec fn map_lines(s: Seq<char>) -> Seq<Seq<char>> {
    raw_lines(s).filter(nonempty_pred())
}

/// The views of a vector of character vectors, one sequence per line.
pub open spec fn lines_view(rows: Seq<Vec<char>>) -> Seq<Seq<char>> {
    rows.map_values(|v: Vec<char>| v@)
}

/// Splits map text into its non-blank lines.
pub fn split_map_lines(s: &str) -> (r: Vec<Vec<char>>)
    ensures
        lines_view(r@) == map_lines(s@),
{
    let n: usize = s.unicode_len();
    let mut out: Vec<Vec<char>> = Vec::new();
    let mut cur: Vec<char> = Vec::new();
    let mut i: usize = 0;
    proof {
        assert(s@.subrange(0, 0) =~= Seq::<char>::empty());
        assert(lines_view(out@) =~= Seq::<Seq<char>>::empty());
        assert(raw_lines(Seq::<char>::empty()).drop_last() =~= Seq::<Seq<char>>::empty());
    }
    while i < n
        invariant
            i <= n,
            n == s@.len(),
            lines_view(out@) == raw_lines(s@.subrange(0, i as int)).drop_last().filter(
                nonempty_pred(),
            ),
            cur@ == raw_lines(s@.subrange(0, i as int)).last(),
        decreases n - i,
    {
        let ghost prefix = s@.subrange(0, i as int);
        proof {
            lemma_raw_lines_nonempty(prefix);
            lemma_raw_lines_push(prefix, s@[i as int]);
            assert(s@.subrange(0, i as int + 1) =~= prefix.push(s@[i as int]));
        }
        let c = s.get_char(i);
        if c == '\n' {
            proof {
                assert(raw_lines(prefix.push(c)).drop_last() =~~= raw_lines(prefix));
                assert(raw_lines(prefix) =~~= raw_lines(prefix).drop_last() + seq![
                    raw_lines(prefix).last(),
                ]);
                Seq::filter_distributes_over_add(
                    raw_lines(prefix).drop_last(),
                    seq![raw_lines(prefix).last()],
                    nonempty_pred(),
                );
                reveal_with_fuel(Seq::filter, 2);
            }
            if cur.len() > 0 {
                let ghost old_out = out@;
                out.push(cur);
                proof {
                    assert(lines_view(out@) =~= lines_view(old_out).push(cur@));
                    assert(seq![cur@].filter(nonempty_pred()) =~= seq![cur@]);
                }
            } else {
                proof {
                    assert(seq![cur@].filter(nonempty_pred()) =~= Seq::<Seq<char>>::empty());
                }
            }
            cur = Vec::new();
        } else {
            proof {
                let updated = raw_lines(prefix).update(
                    raw_lines(prefix).len() - 1,
                    raw_lines(prefix).last().push(c),
                );
                assert(updated.drop_last() =~~= raw_lines(prefix).drop_last());
            }
            cur.push(c);
        }
        i = i + 1;
    }
    let ghost whole = s@;
    proof {
        assert(s@.subrange(0, n as int) =~= whole);
        lemma_raw_lines_nonempty(whole);
        assert(raw_lines(whole) =~~= raw_lines(whole).drop_last() + seq![raw_lines(whole).last()]);
        Seq::filter_distributes_over_add(
            raw_lines(whole).drop_last(),
            seq![raw_lines(whole).last()],
            nonempty_pred(),
        );
        reveal_with_fuel(Seq::filter, 2);
    }
    if cur.len() > 0 {
        let ghost old_out = out@;
        out.push(cur);
        proof {
            assert(lines_view(out@) =~= lines_view(old_out).push(cur@));
            assert(seq![cur@].filter(nonempty_pred()) =~= seq![cur@]);
            assert(lines_view(out@) =~= map_lines(whole));
        }
    } else {
        proof {
            assert(seq![cur@].filter(nonempty_pred()) =~= Seq::<Seq<char>>::empty());
            assert(lines_view(out@) =~= map_lines(whole));
        }
    }
    out
}

} // verus!
