//! Splits one input line into field tokens: fields are separated by commas,
//! empty fields are dropped, and a field that begins with `[` and has a
//! closing `]` is kept whole even if it contains commas, so that inline
//! vector literals survive tokenization. Brackets do not nest.

use vstd::prelude::*;
use vstd::string::StrSliceExecFns;

verus! {

/// The least index at or after `i` where `c` occurs in `s`, or `s.len()`
/// when `c` does not occur there.
pub open spec fn idx_of_from(s: Seq<char>, c: char, i: int) -> int
    decreases s.len() - i,
{
    if i < 0 || i >= s.len() {
        s.len() as int
    } else if s[i] == c {
        i
    } else {
        idx_of_from(s, c, i + 1)
    }
}

/// What `idx_of_from` finds: an occurrence of `c` with none before it, or
/// the end of `s` when there is none.
pub proof fn lemma_idx_of_from(s: Seq<char>, c: char, i: int)
    requires
        0 <= i <= s.len(),
    ensures
        i <= idx_of_from(s, c, i) <= s.len(),
        idx_of_from(s, c, i) < s.len() ==> s[idx_of_from(s, c, i)] == c,
        forall|j: int| i <= j < idx_of_from(s, c, i) ==> s[j] != c,
    decreases s.len() - i,
{
    if i < s.len() && s[i] != c {
        lemma_idx_of_from(s, c, i + 1);
    }
}

/// Where the token starting at `pos` ends (exclusive): a token that starts
/// with `[` and has a closing `]` runs through that bracket; any other
/// token runs to the next comma or the end of the line.
pub open spec fn token_end(s: Seq<char>, pos: int) -> int
    recommends
        0 <= pos < s.len(),
        s[pos] != ',',
{
    if s[pos] == '[' && idx_of_from(s, ']', pos) < s.len() {
        idx_of_from(s, ']', pos) + 1
    } else {
        idx_of_from(s, ',', pos)
    }
}

/// The tokens of `s` from position `pos` on: commas are skipped, and each
/// token runs to its `token_end`.
pub open spec fn spec_tokenize_from(s: Seq<char>, pos: int) -> Seq<Seq<char>>
    decreases s.len() - pos,
    when pos >= 0
    via spec_tokenize_from_decreases
{
    if pos < 0 || pos >= s.len() {
        Seq::empty()
    } else if s[pos] == ',' {
        spec_tokenize_from(s, pos + 1)
    } else {
        seq![s.subrange(pos, token_end(s, pos))] + spec_tokenize_from(s, token_end(s, pos))
    }
}

#[via_fn]
proof fn spec_tokenize_from_decreases(s: Seq<char>, pos: int) {
    if 0 <= pos < s.len() && s[pos] != ',' {
        lemma_idx_of_from(s, ']', pos);
        lemma_idx_of_from(s, ',', pos);
        assert(idx_of_from(s, ',', pos) > pos);
    }
}

/// The tokens of one line: fields split on commas, empty fields dropped,
/// and bracketed fields kept whole.
pub open spec fn spec_tokenize(s: Seq<char>) -> Seq<Seq<char>> {
    spec_tokenize_from(s, 0)
}

/// The sequence of character sequences a list of strings stands for.
pub open spec fn strings_view(v: Seq<String>) -> Seq<Seq<char>> {
    Seq::new(v.len(), |i: int| v[i]@)
}

/// Splits one line into field tokens.
pub trait Tokenizer {
    /// Tokenizes `line` exactly as `spec_tokenize` says.
    fn tokenize(&self, line: &str) -> (r: Vec<String>)
        ensures
            strings_view(r@) == spec_tokenize(line@),
    ;
}

/// The comma tokenizer with atomic bracketed fields.
pub struct CSVTokenizer;

/// Finds the least index at or after `start` where `c` occurs in `line`,
/// or the line's length when it does not occur there.
fn find_from(line: &str, c: char, start: usize) -> (r: usize)
    requires
        start <= line@.len(),
    ensures
        r as int == idx_of_from(line@, c, start as int),
{
    let n = line.unicode_len();
    let mut i: usize = start;
    while i < n
        invariant
            start <= i <= n,
            n == line@.len(),
            idx_of_from(line@, c, start as int) == idx_of_from(line@, c, i as int),
        decreases n - i,
    {
        if line.get_char(i) == c {
            return i;
        }
        i += 1;
    }
    n
}

impl Tokenizer for CSVTokenizer {
    fn tokenize(&self, line: &str) -> (r: Vec<String>) {
        let n = line.unicode_len();
        let mut out: Vec<String> = Vec::new();
        let mut pos: usize = 0;
        while pos < n
            invariant
                pos <= n,
                n == line@.len(),
                spec_tokenize(line@) == strings_view(out@) + spec_tokenize_from(
                    line@,
                    pos as int,
                ),
            decreases n - pos,
        {
            let c = line.get_char(pos);
            if c == ',' {
                pos += 1;
            } else {
                let close = if c == '[' {
                    find_from(line, ']', pos)
                } else {
                    n
                };
                let e = if close < n {
                    close + 1
                } else {
                    find_from(line, ',', pos)
                };
                proof {
                    lemma_idx_of_from(line@, ']', pos as int);
                    lemma_idx_of_from(line@, ',', pos as int);
                    assert(e as int == token_end(line@, pos as int));
                }
                let tok = line.substring_char(pos, e).to_owned();
                out.push(tok);
                proof {
                    assert(strings_view(out@) =~= strings_view(out@.drop_last()).push(tok@));
                    assert(strings_view(out@.drop_last()) + spec_tokenize_from(line@, pos as int)
                        =~= strings_view(out@) + spec_tokenize_from(line@, e as int));
                }
                pos = e;
            }
        }
        proof {
            assert(spec_tokenize(line@) =~= strings_view(out@));
        }
        out
    }
}

} // verus!
