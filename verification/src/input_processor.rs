//! Converts raw delimited text into typed rows: the first line names the
//! columns, every further line carries one record. Header names that do not
//! belong to the declared input columns are tolerated and their fields
//! ignored; a missing header, a short record, and an uninterpretable token
//! are reported as typed errors, each telling the caller whether the input
//! or the configuration is at fault.

use vstd::prelude::*;
use crate::column_metadata::{contains_col, ColumnMetadata};
use crate::input_reader::InputReader;
use crate::mpc_metric_dtype::DTypeView;
use crate::row::Row;
use crate::tokenizer::{spec_tokenize, strings_view, Tokenizer};

verus! {

/// How processing a raw input can fail.
#[derive(Clone, Copy, Debug, PartialEq, Eq, Structural)]
pub enum InputError {
    /// The input held no lines at all, so there is no header.
    NoHeader,
    /// A record line tokenized to fewer fields than the header.
    MalformedInput,
    /// A field aligned to a declared column could not be interpreted by
    /// that column's input conversion.
    UnparseableToken,
}

/// The header's meaning: each token either names a declared input column,
/// or is ignored.
pub open spec fn spec_header<C: ColumnMetadata>(tokens: Seq<Seq<char>>, input_columns: Seq<C>) -> Seq<
    Option<C>,
> {
    Seq::new(
        tokens.len(),
        |i: int|
            match C::spec_from_str(tokens[i]) {
                Some(c) => if input_columns.contains(c) {
                    Some(c)
                } else {
                    None
                },
                None => None,
            },
    )
}

/// Whether every field aligned to a declared column can be interpreted.
pub open spec fn row_tokens_ok<C: ColumnMetadata>(tokens: Seq<Seq<char>>, header: Seq<Option<C>>) -> bool {
    forall|i: int|
        0 <= i < header.len() ==> match #[trigger] header[i] {
            Some(c) => c.spec_from_input(tokens[i]) is Some,
            None => true,
        }
}

/// The row the first `k` header positions produce: each field aligned to a
/// declared column is converted and inserted, later positions winning.
pub open spec fn spec_row_upto<C: ColumnMetadata>(
    tokens: Seq<Seq<char>>,
    header: Seq<Option<C>>,
    k: int,
) -> Map<C, DTypeView>
    decreases k,
{
    if k <= 0 {
        Map::empty()
    } else {
        let m = spec_row_upto(tokens, header, k - 1);
        match header[k - 1] {
            Some(c) => match c.spec_from_input(tokens[k - 1]) {
                Some(v) => m.insert(c, v),
                None => m,
            },
            None => m,
        }
    }
}

/// The row one record line produces under a header.
pub open spec fn spec_row<C: ColumnMetadata>(tokens: Seq<Seq<char>>, header: Seq<Option<C>>) -> Map<
    C,
    DTypeView,
> {
    spec_row_upto(tokens, header, header.len() as int)
}

/// The rows a sequence of record lines produces under a header: the first
/// failing line's error propagates.
pub open spec fn spec_rows<C: ColumnMetadata>(lines: Seq<Seq<char>>, header: Seq<Option<C>>) -> Result<
    Seq<Map<C, DTypeView>>,
    InputError,
>
    decreases lines,
{
    if lines.len() == 0 {
        Ok(Seq::empty())
    } else {
        let toks = spec_tokenize(lines.first());
        if toks.len() < header.len() {
            Err(InputError::MalformedInput)
        } else if !row_tokens_ok(toks, header) {
            Err(InputError::UnparseableToken)
        } else {
            match spec_rows(lines.drop_first(), header) {
                Ok(t) => Ok(seq![spec_row(toks, header)] + t),
                Err(e) => Err(e),
            }
        }
    }
}

/// What processing a whole input produces: the first line is the header,
/// every further line a record; an empty input has no header.
pub open spec fn spec_process<C: ColumnMetadata>(lines: Seq<Seq<char>>, input_columns: Seq<C>) -> Result<
    Seq<Map<C, DTypeView>>,
    InputError,
> {
    if lines.len() == 0 {
        Err(InputError::NoHeader)
    } else {
        spec_rows(lines.drop_first(), spec_header(spec_tokenize(lines.first()), input_columns))
    }
}

/// Composes the tokenizer, the input reader, and the declared input
/// columns into a converter from raw lines to typed rows.
pub struct InputProcessor<C: ColumnMetadata, TK: Tokenizer, R: InputReader> {
    input_columns: Vec<C>,
    tokenizer: TK,
    input_reader: R,
}

impl<C: ColumnMetadata, TK: Tokenizer, R: InputReader> InputProcessor<C, TK, R> {
    /// The declared input columns: only fields aligned to these are kept.
    pub closed spec fn input_columns_spec(&self) -> Seq<C> {
        self.input_columns@
    }

    /// Assembles a processor from the declared input columns, a tokenizer,
    /// and an input source.
    pub fn new(input_columns: Vec<C>, tokenizer: TK, input_reader: R) -> (r: InputProcessor<
        C,
        TK,
        R,
    >)
        ensures
            r.input_columns_spec() == input_columns@,
    {
        InputProcessor { input_columns, tokenizer, input_reader }
    }

    /// Maps header tokens to declared input columns: a token that parses to
    /// a declared input column keeps that column, every other token is
    /// ignored, so input files may carry extra, unused columns.
    pub fn to_header(&self, tokens: &Vec<String>) -> (r: Vec<Option<C>>)
        ensures
            r@ == spec_header(strings_view(tokens@), self.input_columns_spec()),
    {
        let ghost gh = spec_header(strings_view(tokens@), self.input_columns_spec());
        let n = tokens.len();
        let mut out: Vec<Option<C>> = Vec::new();
        let mut i: usize = 0;
        while i < n
            invariant
                n == tokens@.len(),
                i <= n,
                gh == spec_header(strings_view(tokens@), self.input_columns_spec()),
                gh.len() == n,
                out@.len() == i,
                forall|j: int| 0 <= j < i ==> out@[j] == gh[j],
            decreases n - i,
        {
            let cell = match C::from_str(tokens[i].as_str()) {
                Ok(c) => if contains_col(&self.input_columns, &c) {
                    Some(c)
                } else {
                    None
                },
                Err(_) => None,
            };
            proof {
                assert(strings_view(tokens@)[i as int] == tokens@[i as int]@);
                assert(cell == gh[i as int]);
            }
            out.push(cell);
            i += 1;
        }
        proof {
            assert(out@ =~= gh);
        }
        out
    }

    /// Converts one tokenized record into a row under a header: each field
    /// aligned to a declared column goes through that column's input
    /// conversion. A record with fewer fields than the header is malformed,
    /// and a field its column cannot interpret is an unparseable token.
    pub fn to_row(&self, tokens: &Vec<String>, header: &Vec<Option<C>>) -> (r: Result<
        Row<C>,
        InputError,
    >)
        ensures
            match r {
                Ok(row) => {
                    &&& tokens@.len() >= header@.len()
                    &&& row_tokens_ok(strings_view(tokens@), header@)
                    &&& row.wf()
                    &&& row@ == spec_row(strings_view(tokens@), header@)
                },
                Err(e) => match e {
                    InputError::MalformedInput => tokens@.len() < header@.len(),
                    InputError::UnparseableToken => tokens@.len() >= header@.len()
                        && !row_tokens_ok(strings_view(tokens@), header@),
                    InputError::NoHeader => false,
                },
            },
    {
        let n = header.len();
        if tokens.len() < n {
            return Err(InputError::MalformedInput);
        }
        let ghost gt = strings_view(tokens@);
        let mut row: Row<C> = Row::new();
        let mut i: usize = 0;
        while i < n
            invariant
                n == header@.len(),
                tokens@.len() >= n,
                i <= n,
                gt == strings_view(tokens@),
                row.wf(),
                row@ == spec_row_upto(gt, header@, i as int),
                forall|j: int|
                    0 <= j < i ==> match #[trigger] header@[j] {
                        Some(c) => c.spec_from_input(gt[j]) is Some,
                        None => true,
                    },
            decreases n - i,
        {
            match &header[i] {
                Some(column) => {
                    proof {
                        assert(gt[i as int] == tokens@[i as int]@);
                    }
                    match column.from_input(tokens[i].as_str()) {
                        Some(v) => {
                            row.insert(*column, v);
                        },
                        None => {
                            proof {
                                assert(!row_tokens_ok(gt, header@));
                            }
                            return Err(InputError::UnparseableToken);
                        },
                    }
                },
                None => {},
            }
            i += 1;
        }
        proof {
            assert(row_tokens_ok(gt, header@));
        }
        Ok(row)
    }

    /// Converts record lines into rows under an already mapped header,
    /// stopping at the first malformed or unparseable line.
    pub fn process_lines_with_header(&self, lines: &Vec<String>, start: usize, header: &Vec<
        Option<C>,
    >) -> (r: Result<Vec<Row<C>>, InputError>)
        requires
            start <= lines@.len(),
        ensures
            match r {
                Ok(rows) => {
                    &&& spec_rows(
                        strings_view(lines@).skip(start as int),
                        header@,
                    ) is Ok
                    &&& rows@.len() == lines@.len() - start
                    &&& forall|k: int| 0 <= k < rows@.len() ==> (#[trigger] rows@[k]).wf()
                    &&& Seq::new(rows@.len(), |k: int| rows@[k]@) == spec_rows(
                        strings_view(lines@).skip(start as int),
                        header@,
                    )->Ok_0
                },
                Err(e) => spec_rows(strings_view(lines@).skip(start as int), header@) == Err::<
                    Seq<Map<C, DTypeView>>,
                    InputError,
                >(e),
            },
    {
        let n = lines.len();
        let mut rows: Vec<Row<C>> = Vec::new();
        let mut i: usize = start;
        while i < n
            invariant
                start <= i <= n,
                n == lines@.len(),
                rows@.len() == i - start,
                forall|k: int| 0 <= k < rows@.len() ==> (#[trigger] rows@[k]).wf(),
                ({
                    let whole = spec_rows(strings_view(lines@).skip(start as int), header@);
                    let rest = spec_rows(strings_view(lines@).skip(i as int), header@);
                    match rest {
                        Ok(t) => whole == Ok::<Seq<Map<C, DTypeView>>, InputError>(
                            Seq::new(rows@.len(), |k: int| rows@[k]@) + t,
                        ),
                        Err(e) => whole == Err::<Seq<Map<C, DTypeView>>, InputError>(e),
                    }
                }),
            decreases n - i,
        {
            proof {
                lemma_spec_rows_unfold(strings_view(lines@), header@, i as int);
                assert(strings_view(lines@)[i as int] == lines@[i as int]@);
            }
            let toks = self.tokenizer.tokenize(lines[i].as_str());
            match self.to_row(&toks, header) {
                Ok(row) => {
                    let ghost prev_rows = rows@;
                    rows.push(row);
                    proof {
                        let gl = strings_view(lines@);
                        let rest_next = spec_rows(gl.skip(i + 1), header@);
                        let toks_s = spec_tokenize(gl[i as int]);
                        assert(rows@ == prev_rows.push(row));
                        let prev = Seq::new(prev_rows.len(), |k: int| prev_rows[k]@);
                        let cur = Seq::new(rows@.len(), |k: int| rows@[k]@);
                        assert(strings_view(toks@) == toks_s);
                        assert(row@ == spec_row(toks_s, header@));
                        assert(cur =~= prev.push(row@));
                        match rest_next {
                            Ok(t) => {
                                assert(prev + (seq![spec_row(toks_s, header@)] + t) =~= cur + t);
                            },
                            Err(e) => {},
                        }
                    }
                },
                Err(e) => {
                    return Err(e);
                },
            }
            i += 1;
        }
        proof {
            assert(strings_view(lines@).skip(n as int) =~= Seq::<Seq<char>>::empty());
            assert(Seq::new(rows@.len(), |k: int| rows@[k]@) + Seq::<Map<C, DTypeView>>::empty()
                =~= Seq::new(rows@.len(), |k: int| rows@[k]@));
        }
        Ok(rows)
    }

    /// Converts a whole input — a header line followed by record lines —
    /// into typed rows, exactly as `spec_process` says: an empty input has
    /// no header, and the first bad record line stops the run with its
    /// error.
    pub fn process_lines(&self, lines: &Vec<String>) -> (r: Result<Vec<Row<C>>, InputError>)
        ensures
            match r {
                Ok(rows) => {
                    &&& spec_process(strings_view(lines@), self.input_columns_spec()) is Ok
                    &&& forall|k: int| 0 <= k < rows@.len() ==> (#[trigger] rows@[k]).wf()
                    &&& Seq::new(rows@.len(), |k: int| rows@[k]@) == spec_process(
                        strings_view(lines@),
                        self.input_columns_spec(),
                    )->Ok_0
                },
                Err(e) => spec_process(strings_view(lines@), self.input_columns_spec()) == Err::<
                    Seq<Map<C, DTypeView>>,
                    InputError,
                >(e),
            },
    {
        let n = lines.len();
        if n == 0 {
            return Err(InputError::NoHeader);
        }
        let header_tokens = self.tokenizer.tokenize(lines[0].as_str());
        let header = self.to_header(&header_tokens);
        proof {
            assert(strings_view(lines@)[0] == lines@[0]@);
            assert(strings_view(lines@).skip(1) =~= strings_view(lines@).drop_first());
        }
        self.process_lines_with_header(lines, 1, &header)
    }

    /// Reads every line the input source offers and converts them into
    /// typed rows. What the source returns is up to the outside world; the
    /// conversion itself behaves exactly as `process_lines` says of the
    /// lines that arrived.
    pub fn process_input(&self) -> (r: Result<Vec<Row<C>>, InputError>)
        ensures
            match r {
                Ok(rows) => forall|k: int| 0 <= k < rows@.len() ==> (#[trigger] rows@[k]).wf(),
                Err(_) => true,
            },
    {
        let lines = self.input_reader.read_all();
        self.process_lines(&lines)
    }
}

/// Unrolls `spec_rows` at the line `i`, seen from the suffix starting
/// there.
proof fn lemma_spec_rows_unfold<C: ColumnMetadata>(
    lines: Seq<Seq<char>>,
    header: Seq<Option<C>>,
    i: int,
)
    requires
        0 <= i < lines.len(),
    ensures
        spec_tokenize(lines[i]).len() < header.len() ==> spec_rows(lines.skip(i), header) == Err::<
            Seq<Map<C, DTypeView>>,
            InputError,
        >(InputError::MalformedInput),
        spec_tokenize(lines[i]).len() >= header.len() && !row_tokens_ok(
            spec_tokenize(lines[i]),
            header,
        ) ==> spec_rows(lines.skip(i), header) == Err::<Seq<Map<C, DTypeView>>, InputError>(
            InputError::UnparseableToken,
        ),
        spec_tokenize(lines[i]).len() >= header.len() && row_tokens_ok(
            spec_tokenize(lines[i]),
            header,
        ) && spec_rows(lines.skip(i + 1), header) is Ok ==> spec_rows(lines.skip(i), header)
            == Ok::<Seq<Map<C, DTypeView>>, InputError>(
            seq![spec_row(spec_tokenize(lines[i]), header)] + spec_rows(
                lines.skip(i + 1),
                header,
            )->Ok_0,
        ),
        spec_tokenize(lines[i]).len() >= header.len() && row_tokens_ok(
            spec_tokenize(lines[i]),
            header,
        ) && spec_rows(lines.skip(i + 1), header) is Err ==> spec_rows(lines.skip(i), header)
            == spec_rows(lines.skip(i + 1), header),
{
    let suff = lines.skip(i);
    assert(suff.len() == lines.len() - i);
    assert(suff.first() == lines[i]);
    assert(suff.drop_first() =~= lines.skip(i + 1));
}

} // verus!
