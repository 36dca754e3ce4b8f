//! What a statement returns.

use crate::error::{DbError, ErrorView};
use crate::table::values_view;
use crate::text::value_text;
use crate::value::{Value, ValueView};
use vstd::prelude::*;
use vstd::std_specs::convert::FromSpecImpl;

verus! {

/// The rows a `SELECT` returned, under the display names of their columns.
#[derive(Debug, Clone)]
pub struct SelectResult {
    pub columns: Vec<String>,
    pub rows: Vec<Vec<Value>>,
}

/// What a statement returned.
#[derive(Debug, Clone)]
pub enum QueryResult {
    /// The statement changed the catalog or a table; the message says how.
    Success(String),
    /// The statement was a query.
    Rows(SelectResult),
}

/// The contents of a [`QueryResult`].
pub ghost enum ResultView {
    Success(Seq<char>),
    Rows { columns: Seq<Seq<char>>, rows: Seq<Seq<ValueView>> },
}

/// The contents of a list of texts, in order.
pub open spec fn texts_view(texts: Seq<String>) -> Seq<Seq<char>> {
    Seq::new(texts.len(), |i: int| texts[i]@)
}

/// The contents of a list of lists of values, in order.
pub open spec fn rows_view(rows: Seq<Vec<Value>>) -> Seq<Seq<ValueView>> {
    Seq::new(rows.len(), |i: int| values_view(rows[i]@))
}

impl SelectResult {
    /// A result without columns and without rows.
    pub fn new() -> (r: SelectResult)
        ensures
            r.columns@.len() == 0,
            r.rows@.len() == 0,
    {
        SelectResult { columns: Vec::new(), rows: Vec::new() }
    }
}

impl View for QueryResult {
    type V = ResultView;

    open spec fn view(&self) -> ResultView {
        match self {
            QueryResult::Success(message) => ResultView::Success(message@),
            QueryResult::Rows(result) => ResultView::Rows {
                columns: texts_view(result.columns@),
                rows: rows_view(result.rows@),
            },
        }
    }
}

/// A [`SelectResult`] with every value written as text.
#[derive(Debug, Clone)]
pub struct SelectResultResponse {
    pub columns: Vec<String>,
    pub rows: Vec<Vec<String>>,
}

/// The texts of the values of one row, in order.
pub open spec fn row_texts(row: Seq<ValueView>) -> Seq<Seq<char>> {
    Seq::new(row.len(), |i: int| value_text(row[i]))
}

/// The contents of a list of lists of texts, in order.
pub open spec fn text_rows_view(rows: Seq<Vec<String>>) -> Seq<Seq<Seq<char>>> {
    Seq::new(rows.len(), |i: int| texts_view(rows[i]@))
}

impl SelectResult {
    /// Writes every value as text (see [`value_text`]); the column names stay.
    pub fn into_response(self) -> (r: SelectResultResponse)
        ensures
            responds_to(r, self),
    {
        let mut rows: Vec<Vec<String>> = Vec::new();
        let mut i: usize = 0;
        while i < self.rows.len()
            invariant
                i <= self.rows.len(),
                rows.len() == i,
                forall|j: int|
                    0 <= j < i ==> texts_view(#[trigger] rows[j]@) == row_texts(
                        values_view(self.rows@[j]@),
                    ),
            decreases self.rows.len() - i,
        {
            let row = &self.rows[i];
            let mut line: Vec<String> = Vec::new();
            let mut c: usize = 0;
            while c < row.len()
                invariant
                    c <= row.len(),
                    line.len() == c,
                    forall|k: int| 0 <= k < c ==> (#[trigger] line[k])@ == value_text(row[k]@),
                decreases row.len() - c,
            {
                line.push(row[c].to_text());
                c = c + 1;
            }
            rows.push(line);
            i = i + 1;
        }
        assert(text_rows_view(rows@) =~= Seq::new(
            self.rows@.len(),
            |i: int| row_texts(values_view(self.rows@[i]@)),
        ));
        SelectResultResponse { columns: self.columns, rows }
    }
}

/// Whether `response` is `result` with every value written as text.
pub open spec fn responds_to(response: SelectResultResponse, result: SelectResult) -> bool {
    &&& texts_view(response.columns@) == texts_view(result.columns@)
    &&& text_rows_view(response.rows@) == Seq::new(
        result.rows@.len(),
        |i: int| row_texts(values_view(result.rows@[i]@)),
    )
}

impl From<SelectResult> for SelectResultResponse {
    /// The same as [`SelectResult::into_response`].
    fn from(result: SelectResult) -> (r: SelectResultResponse)
        ensures
            responds_to(r, result),
    {
        result.into_response()
    }
}

impl FromSpecImpl<SelectResult> for SelectResultResponse {
    /// Two responses to one result have the same contents but need not be
    /// the same value, so the conversion is stated on [`From::from`] itself.
    open spec fn obeys_from_spec() -> bool {
        false
    }

    open spec fn from_spec(result: SelectResult) -> SelectResultResponse {
        choose|response: SelectResultResponse| responds_to(response, result)
    }
}

/// The contents of what a statement ended in.
pub open spec fn outcome_view(r: Result<QueryResult, DbError>) -> Result<ResultView, ErrorView> {
    match r {
        Ok(result) => Ok(result@),
        Err(e) => Err(e@),
    }
}

} // verus!
