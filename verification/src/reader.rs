//! The input reader's pure core: splitting one line of text on
//! whitespace, parsing the tokens as non-negative integers, and deciding
//! whether they form a legal move on the current board.

use vstd::prelude::*;

use crate::board::{cell_index, Board, Cell};

verus! {

/// Whether a byte is whitespace for the purpose of splitting a line.
pub open spec fn is_space(c: u8) -> bool {
    c == 32 || c == 9 || c == 10 || c == 11 || c == 12 || c == 13
}

/// Whether a byte is a decimal digit.
pub open spec fn is_digit(c: u8) -> bool {
    48 <= c <= 57
}

/// Length of the leading run of non-whitespace bytes.
pub open spec fn token_len(s: Seq<u8>) -> nat
    decreases s.len(),
{
    if s.len() == 0 || is_space(s[0]) {
        0
    } else {
        1 + token_len(s.drop_first())
    }
}

/// The leading token is never longer than the line, and is non-empty
/// exactly when the line starts with a non-whitespace byte.
proof fn lemma_token_len_bounds(s: Seq<u8>)
    ensures
        token_len(s) <= s.len(),
        s.len() > 0 && !is_space(s[0]) ==> token_len(s) >= 1,
    decreases s.len(),
{
    if s.len() > 0 && !is_space(s[0]) {
        lemma_token_len_bounds(s.drop_first());
    }
}

/// A run of `n` non-whitespace bytes ended by the line's end or by a
/// whitespace byte is exactly the leading token.
proof fn lemma_token_len_run(s: Seq<u8>, n: int)
    requires
        0 <= n <= s.len(),
        forall|k: int| 0 <= k < n ==> !is_space(s[k]),
        n == s.len() || is_space(s[n]),
    ensures
        token_len(s) == n,
    decreases n,
{
    if n > 0 {
        let rest = s.drop_first();
        assert forall|k: int| 0 <= k < n - 1 implies !is_space(rest[k]) by {
            assert(rest[k] == s[k + 1]);
        }
        if n - 1 < rest.len() {
            assert(rest[n - 1] == s[n]);
        }
        lemma_token_len_run(rest, n - 1);
    }
}

/// The whitespace-separated tokens of the line, in order.
pub open spec fn tokens(s: Seq<u8>) -> Seq<Seq<u8>>
    decreases s.len(),
    via tokens_decreases
{
    if s.len() == 0 {
        Seq::empty()
    } else if is_space(s[0]) {
        tokens(s.drop_first())
    } else {
        seq![s.take(token_len(s) as int)] + tokens(s.skip(token_len(s) as int))
    }
}

#[via_fn]
proof fn tokens_decreases(s: Seq<u8>) {
    lemma_token_len_bounds(s);
}

/// Whether a token parses as a non-negative integer: non-empty and all
/// decimal digits.
pub open spec fn is_int_token(t: Seq<u8>) -> bool {
    t.len() > 0 && forall|k: int| 0 <= k < t.len() ==> is_digit(t[k])
}

/// The numeric value of a digit token.
pub open spec fn token_val(t: Seq<u8>) -> nat
    recommends
        is_int_token(t),
    decreases t.len(),
{
    if t.len() == 0 {
        0
    } else {
        token_val(t.drop_last()) * 10 + (if is_digit(t.last()) {
            (t.last() - 48) as nat
        } else {
            0
        })
    }
}

/// The values of the tokens that parse as non-negative integers, in
/// order; tokens that fail to parse are dropped silently.
pub open spec fn int_tokens(ts: Seq<Seq<u8>>) -> Seq<nat>
    decreases ts.len(),
{
    if ts.len() == 0 {
        Seq::empty()
    } else {
        (if is_int_token(ts[0]) {
            seq![token_val(ts[0])]
        } else {
            Seq::<nat>::empty()
        }) + int_tokens(ts.drop_first())
    }
}

/// The integers the line yields: split on whitespace, parse each token
/// as a non-negative integer, drop the tokens that fail to parse.
pub open spec fn parsed_ints(s: Seq<u8>) -> Seq<nat> {
    int_tokens(tokens(s))
}

/// Whether the reader accepts the line against the board: the line
/// yields exactly two integers, both below 3, and the cell they address
/// is empty.
pub open spec fn accepts(s: Seq<u8>, b: Seq<Cell>) -> bool
    recommends
        b.len() == 9,
{
    let ints = parsed_ints(s);
    ints.len() == 2 && ints[0] < 3 && ints[1] < 3 && b[cell_index(
        ints[0] as int,
        ints[1] as int,
    )] == Cell::Empty
}

/// When every token of the list parses, nothing is dropped: the values
/// are exactly the tokens' values, in order.
pub proof fn lemma_int_tokens_all(ts: Seq<Seq<u8>>)
    requires
        forall|k: int| 0 <= k < ts.len() ==> is_int_token(#[trigger] ts[k]),
    ensures
        int_tokens(ts).len() == ts.len(),
        forall|k: int| 0 <= k < ts.len() ==> int_tokens(ts)[k] == token_val(ts[k]),
    decreases ts.len(),
{
    if ts.len() > 0 {
        let rest = ts.drop_first();
        assert forall|k: int| 0 <= k < rest.len() implies is_int_token(#[trigger] rest[k]) by {
            assert(rest[k] == ts[k + 1]);
        }
        lemma_int_tokens_all(rest);
        assert(int_tokens(ts) == seq![token_val(ts[0])] + int_tokens(rest));
        assert forall|k: int| 0 <= k < ts.len() implies int_tokens(ts)[k] == token_val(ts[k]) by {
            if k > 0 {
                assert(int_tokens(ts)[k] == int_tokens(rest)[k - 1]);
                assert(rest[k - 1] == ts[k]);
            }
        }
    }
}

/// Acceptance law of the input parser, on lines each of whose
/// whitespace-separated tokens parses as a non-negative integer: such a
/// line is accepted exactly when it has two tokens, both of whose
/// values are below 3 and address an empty cell of the board.
pub proof fn lemma_acceptance(s: Seq<u8>, b: Seq<Cell>)
    requires
        b.len() == 9,
        forall|k: int| 0 <= k < tokens(s).len() ==> is_int_token(#[trigger] tokens(s)[k]),
    ensures
        accepts(s, b) <==> (tokens(s).len() == 2 && token_val(tokens(s)[0]) < 3 && token_val(
            tokens(s)[1],
        ) < 3 && b[cell_index(
            token_val(tokens(s)[0]) as int,
            token_val(tokens(s)[1]) as int,
        )] == Cell::Empty),
{
    lemma_int_tokens_all(tokens(s));
}

/// A parsed value capped at 3: enough to decide whether it is a legal
/// coordinate, with no bound on the token's length.
spec fn min_cap(v: nat) -> nat {
    if v > 3 {
        3
    } else {
        v
    }
}

/// Whether a byte is whitespace, as executable code.
fn is_space_byte(c: u8) -> (r: bool)
    ensures
        r == is_space(c),
{
    c == 32 || c == 9 || c == 10 || c == 11 || c == 12 || c == 13
}

/// Whether a byte is a decimal digit, as executable code.
fn is_digit_byte(c: u8) -> (r: bool)
    ensures
        r == is_digit(c),
{
    48 <= c && c <= 57
}

/// Parse one line as a move on `board`: split on whitespace, parse each
/// token as a non-negative integer, and accept exactly when two
/// integers result, both below 3, addressing an empty cell. Returns the
/// accepted (row, col), or `None` when the line is rejected.
pub fn parse_move(line: &[u8], board: &Board) -> (r: Option<(usize, usize)>)
    requires
        board.wf(),
    ensures
        ({
            let ints = parsed_ints(line@);
            match r {
                Some(mv) => accepts(line@, board@) && mv.0 as nat == ints[0] && mv.1 as nat
                    == ints[1],
                None => !accepts(line@, board@),
            }
        }),
{
    let n = line.len();
    let mut i: usize = 0;
    let mut count: usize = 0;
    let mut v0: usize = 0;
    let mut v1: usize = 0;
    let ghost mut done: Seq<nat> = Seq::empty();

    proof {
        assert(line@.skip(0) =~= line@);
    }

    while i < n
        invariant
            board.wf(),
            i <= n,
            n == line@.len(),
            count == done.len(),
            count <= i,
            parsed_ints(line@) == done + parsed_ints(line@.skip(i as int)),
            count >= 1 ==> v0 as nat == min_cap(done[0]) && v0 <= 3,
            count >= 2 ==> v1 as nat == min_cap(done[1]) && v1 <= 3,
        decreases n - i,
    {
        if is_space_byte(line[i]) {
            proof {
                let s = line@.skip(i as int);
                assert(s[0] == line@[i as int]);
                assert(s.drop_first() =~= line@.skip(i as int + 1));
                assert(tokens(s) == tokens(line@.skip(i as int + 1)));
            }
            i = i + 1;
        } else {
            let mut j: usize = i;
            let mut all_digits: bool = true;
            let mut acc: usize = 0;
            let ghost mut bad: int = 0;
            while j < n && !is_space_byte(line[j])
                invariant
                    i <= j <= n,
                    n == line@.len(),
                    i < n,
                    !is_space(line@[i as int]),
                    forall|k: int| i <= k < j ==> !is_space(line@[k]),
                    all_digits <==> (forall|k: int| i <= k < j ==> is_digit(line@[k])),
                    acc <= 3,
                    all_digits ==> acc as nat == min_cap(
                        token_val(line@.subrange(i as int, j as int)),
                    ),
                    !all_digits ==> i <= bad < j && !is_digit(line@[bad]),
                decreases n - j,
            {
                let c: u8 = line[j];
                if is_digit_byte(c) {
                    let d: usize = (c - 48) as usize;
                    let mut next: usize = acc * 10 + d;
                    if next > 3 {
                        next = 3;
                    }
                    proof {
                        let t0 = line@.subrange(i as int, j as int);
                        let t1 = line@.subrange(i as int, j as int + 1);
                        assert(t1.drop_last() =~= t0);
                        assert(t1.last() == line@[j as int]);
                        assert(token_val(t1) == token_val(t0) * 10 + d);
                        if token_val(t0) > 3 {
                            assert(token_val(t0) * 10 + d > 3);
                        }
                    }
                    acc = next;
                } else {
                    all_digits = false;
                    proof {
                        bad = j as int;
                    }
                }
                j = j + 1;
            }
            proof {
                assert(j > i);
                let s = line@.skip(i as int);
                assert(s[0] == line@[i as int]);
                assert forall|k: int| 0 <= k < j - i implies !is_space(s[k]) by {
                    assert(s[k] == line@[i + k]);
                }
                if j - i < s.len() {
                    assert(s[j - i] == line@[j as int]);
                }
                lemma_token_len_run(s, j as int - i as int);
                let t = s.take(j as int - i as int);
                assert(t =~= line@.subrange(i as int, j as int));
                assert(s.skip(j as int - i as int) =~= line@.skip(j as int));
                if all_digits {
                    assert forall|k: int| 0 <= k < t.len() implies is_digit(t[k]) by {
                        assert(t[k] == line@[i + k]);
                    }
                    assert(is_int_token(t));
                } else {
                    assert(t[bad - i as int] == line@[bad]);
                    assert(!is_int_token(t));
                }
                let tl = tokens(s);
                assert(tl == seq![t] + tokens(line@.skip(j as int)));
                assert(tl[0] == t);
                assert(tl.drop_first() =~= tokens(line@.skip(j as int)));
                assert(int_tokens(tl) == (if is_int_token(t) {
                    seq![token_val(t)]
                } else {
                    Seq::<nat>::empty()
                }) + int_tokens(tokens(line@.skip(j as int))));
            }
            if all_digits {
                if count == 0 {
                    v0 = acc;
                } else if count == 1 {
                    v1 = acc;
                }
                count = count + 1;
                proof {
                    done = done + seq![token_val(line@.subrange(i as int, j as int))];
                }
            }
            proof {
                assert(parsed_ints(line@) == done + parsed_ints(line@.skip(j as int)));
            }
            i = j;
        }
    }
    proof {
        assert(line@.skip(n as int) =~= Seq::<u8>::empty());
        assert(tokens(Seq::<u8>::empty()) =~= Seq::<Seq<u8>>::empty());
        assert(parsed_ints(line@) =~= done);
    }
    if count == 2 && v0 < 3 && v1 < 3 {
        proof {
            assert(parsed_ints(line@)[0] == v0 as nat);
            assert(parsed_ints(line@)[1] == v1 as nat);
        }
        match board.get(v0, v1) {
            Ok(Cell::Empty) => Some((v0, v1)),
            _ => None,
        }
    } else {
        None
    }
}

} // verus!
