//! XLSX extractor: reads the workbook through the `calamine` crate,
//! then renders every sheet as comma-separated rows; a sheet that
//! follows non-empty content is introduced by a named header line.

use vstd::prelude::*;

use calamine::Reader;

use crate::errors::ParserError;
use crate::strutil::{strip_nul_spec, strip_nul_str};

verus! {

/// What reading the workbook gives for a buffer: for each readable
/// sheet, in order, its name and its rows of cell texts; or the error
/// text when the workbook cannot be opened.  The outcome is a function
/// of the buffer alone.
pub uninterp spec fn xlsx_read_result(bytes: Seq<u8>) -> Result<
    Seq<(Seq<char>, Seq<Seq<Seq<char>>>)>,
    Seq<char>,
>;

/// The model of what the workbook reader hands back.
pub open spec fn sheets_view(r: Result<Vec<(String, Vec<Vec<String>>)>, String>) -> Result<
    Seq<(Seq<char>, Seq<Seq<Seq<char>>>)>,
    Seq<char>,
> {
    match r {
        Ok(v) => Ok(v@.map_values(|p: (String, Vec<Vec<String>>)| (p.0@, p.1.deep_view()))),
        Err(e) => Err(e@),
    }
}

/// A row's text: its cells joined with commas.
pub open spec fn render_row(row: Seq<Seq<char>>) -> Seq<char>
    decreases row.len(),
{
    if row.len() == 0 {
        Seq::empty()
    } else if row.len() == 1 {
        row[0]
    } else {
        render_row(row.drop_last()) + ","@ + row.last()
    }
}

/// A sheet's text: its rows joined with line breaks.
pub open spec fn render_rows(rows: Seq<Seq<Seq<char>>>) -> Seq<char>
    decreases rows.len(),
{
    if rows.len() == 0 {
        Seq::empty()
    } else if rows.len() == 1 {
        render_row(rows[0])
    } else {
        render_rows(rows.drop_last()) + "\n"@ + render_row(rows.last())
    }
}

/// Folds the sheets into one text.  A sheet's content is preceded by a
/// header naming the sheet whenever earlier sheets already produced
/// non-empty content.
pub open spec fn render_sheets(sheets: Seq<(Seq<char>, Seq<Seq<Seq<char>>>)>, acc: Seq<char>) -> Seq<
    char,
>
    decreases sheets.len(),
{
    if sheets.len() == 0 {
        acc
    } else {
        let part = render_rows(sheets[0].1);
        let acc2 = if acc.len() > 0 {
            acc + "\n--- Sheet: "@ + sheets[0].0 + " ---\n"@ + part
        } else {
            acc + part
        };
        render_sheets(sheets.drop_first(), acc2)
    }
}

/// What XLSX extraction returns: the rendered sheets, freed of NUL
/// characters.
pub open spec fn xlsx_outcome(bytes: Seq<u8>) -> Result<Seq<char>, Seq<char>> {
    match xlsx_read_result(bytes) {
        Ok(sheets) => Ok(strip_nul_spec(render_sheets(sheets, Seq::empty()), 0)),
        Err(m) => Err(m),
    }
}

/// Relies on `calamine::Xlsx`: `new` opens the workbook from an
/// in-memory cursor, `sheet_names` lists the sheets in workbook order,
/// and `worksheet_range` decodes a sheet's cells; a sheet whose range
/// cannot be read is skipped.  Each cell is rendered by its `Display`
/// text.
#[verifier::external_body]
fn read_xlsx_sheets(data: &[u8]) -> (r: Result<Vec<(String, Vec<Vec<String>>)>, String>)
    ensures
        sheets_view(r) == xlsx_read_result(data@),
{
    let mut wb: calamine::Xlsx<_> = calamine::Xlsx::new(std::io::Cursor::new(data)).map_err(|e|
        e.to_string())?;
    let names = wb.sheet_names();
    let mut out = Vec::new();
    for name in names {
        if let Ok(range) = wb.worksheet_range(&name) {
            let rows = range.rows().map(|r| r.iter().map(|c| c.to_string()).collect()).collect();
            out.push((name, rows));
        }
    }
    Ok(out)
}

/// Extracts the cell text of an XLSX workbook as comma-separated rows;
/// a workbook that cannot be opened surfaces as `ParseError`.
pub fn parse_xlsx(data: &[u8]) -> (r: Result<String, ParserError>)
    ensures
        r matches Ok(t) ==> xlsx_outcome(data@) == Ok::<Seq<char>, Seq<char>>(t@),
        r matches Err(e) ==> xlsx_outcome(data@) matches Err(m) && e matches
            ParserError::ParseError(s) && s@ == m,
        r is Ok <==> xlsx_read_result(data@) is Ok,
{
    let sheets = match read_xlsx_sheets(data) {
        Ok(s) => s,
        Err(e) => {
            return Err(ParserError::ParseError(e));
        },
    };
    let ghost sv = sheets@.map_values(|p: (String, Vec<Vec<String>>)| (p.0@, p.1.deep_view()));
    let mut text = String::new();
    let mut i: usize = 0;
    proof {
        assert(sv.skip(0) =~= sv);
    }
    while i < sheets.len()
        invariant
            i <= sheets.len(),
            sv == sheets@.map_values(
                |p: (String, Vec<Vec<String>>)| (p.0@, p.1.deep_view()),
            ),
            sv.len() == sheets@.len(),
            render_sheets(sv, Seq::empty()) == render_sheets(sv.skip(i as int), text@),
        decreases sheets@.len() - i,
    {
        let ghost rest = sv.skip(i as int);
        proof {
            assert(rest[0] == sv[i as int]);
            assert(sv[i as int].1 == sheets@[i as int].1.deep_view());
            assert(rest.drop_first() =~= sv.skip(i + 1));
        }
        if text.as_str().is_empty() {
        } else {
            text.append("\n--- Sheet: ");
            text.append(sheets[i].0.as_str());
            text.append(" ---\n");
        }
        let rows = &sheets[i].1;
        let ghost rv = sheets@[i as int].1.deep_view();
        let ghost text_before = text@;
        let mut k: usize = 0;
        proof {
            assert(rv.take(0) =~= Seq::<Seq<Seq<char>>>::empty());
            assert(rv.len() == rows@.len());
        }
        while k < rows.len()
            invariant
                k <= rows.len(),
                rv == sheets@[i as int].1.deep_view(),
                rv.len() == rows@.len(),
                rows@ == sheets@[i as int].1@,
                text@ == text_before + render_rows(rv.take(k as int)),
            decreases rows@.len() - k,
        {
            if k > 0 {
                text.append("\n");
            }
            let row = &rows[k];
            let ghost rowv = rv[k as int];
            let ghost row_before = text@;
            let mut c: usize = 0;
            proof {
                assert(rowv == rows@[k as int].deep_view());
                assert(rowv.len() == row@.len());
                assert(rowv.take(0) =~= Seq::<Seq<char>>::empty());
            }
            while c < row.len()
                invariant
                    c <= row.len(),
                    rowv == rows@[k as int].deep_view(),
                    rowv.len() == row@.len(),
                    row@ == rows@[k as int]@,
                    text@ == row_before + render_row(rowv.take(c as int)),
                decreases row@.len() - c,
            {
                if c > 0 {
                    text.append(",");
                }
                text.append(row[c].as_str());
                proof {
                    assert(rowv.take(c + 1).drop_last() =~= rowv.take(c as int));
                    assert(rowv.take(c + 1).last() == rowv[c as int]);
                    assert(rowv[c as int] == row@[c as int]@);
                    if c == 0 {
                        assert(rowv.take(1)[0] == rowv[0]);
                        assert(render_row(rowv.take(1)) == rowv[0]);
                    }
                }
                c = c + 1;
            }
            proof {
                assert(rowv.take(rowv.len() as int) =~= rowv);
                assert(rv.take(k + 1).drop_last() =~= rv.take(k as int));
                assert(rv.take(k + 1).last() == rv[k as int]);
                if k == 0 {
                    assert(rv.take(1)[0] == rv[0]);
                    assert(render_rows(rv.take(1)) == render_row(rv[0]));
                }
            }
            k = k + 1;
        }
        proof {
            assert(rv.take(rv.len() as int) =~= rv);
            assert(text@ == text_before + render_rows(rest[0].1));
        }
        i = i + 1;
    }
    proof {
        assert(sv.skip(sv.len() as int) =~= Seq::<(Seq<char>, Seq<Seq<Seq<char>>>)>::empty());
    }
    Ok(strip_nul_str(text.as_str()))
}

} // verus!
