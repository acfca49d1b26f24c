//! Jupyter Notebook (`.ipynb`) file processor.
//!
//! This processor parses the notebook's JSON and extracts:
//! - the total number of cells and their types,
//! - code cells (and optionally markdown cells),
//! - a configurable number of sample cells,
//! - optional cell outputs.
//!
//! This gives a language model the structure of a notebook without all of
//! its cells.
use super::default::{utf8_lossy, DefaultTextProcessor};
use super::json::{
    json_as_array, json_get, json_parse_outcome, json_values, opt_as_str, parse_json, Json,
    JsonValue,
};
use super::text::{
    append_decimal, append_line_terminated, decimal, line_terminated, push_newline,
};
use super::{result_text, FileProcessor, IpynbProcessorConfig, ProcessError, ProcessErrorValue};
use vstd::prelude::*;

verus! {

// ---------------------------------------------------------------------------
// What the summary of a notebook is
// ---------------------------------------------------------------------------

/// The type of a cell: its `cell_type` string, or `unknown` without one.
pub open spec fn cell_type(cell: JsonValue) -> Seq<char> {
    match opt_as_str(json_get(cell, "cell_type"@)) {
        Some(t) => t,
        None => "unknown"@,
    }
}

/// The cells of type `t`, in notebook order.
pub open spec fn cells_of_type(cells: Seq<JsonValue>, t: Seq<char>) -> Seq<JsonValue> {
    cells.filter(|c: JsonValue| cell_type(c) == t)
}

/// The code cells, in notebook order.
pub open spec fn code_cells(cells: Seq<JsonValue>) -> Seq<JsonValue> {
    cells_of_type(cells, "code"@)
}

/// The markdown cells, in notebook order.
pub open spec fn markdown_cells(cells: Seq<JsonValue>) -> Seq<JsonValue> {
    cells_of_type(cells, "markdown"@)
}

/// The raw cells, in notebook order.
pub open spec fn raw_cells(cells: Seq<JsonValue>) -> Seq<JsonValue> {
    cells_of_type(cells, "raw"@)
}

/// The strings among `items`, joined without separator.
pub open spec fn joined_strings(items: Seq<JsonValue>) -> Seq<char>
    decreases items.len(),
{
    if items.len() == 0 {
        Seq::empty()
    } else {
        joined_strings(items.drop_last()) + match items.last() {
            JsonValue::Str(s) => s,
            _ => Seq::empty(),
        }
    }
}

/// The text of a source (or output text) field: a string as it is, the
/// strings of an array joined, and a placeholder for anything else.
pub open spec fn source_text(v: JsonValue) -> Seq<char> {
    match v {
        JsonValue::Str(s) => s,
        JsonValue::Array(items) => joined_strings(items),
        _ => "(Unable to extract source)"@,
    }
}

/// A string field of an output, or `default` where there is none.
pub open spec fn str_or(v: Option<JsonValue>, default: Seq<char>) -> Seq<char> {
    match opt_as_str(v) {
        Some(s) => s,
        None => default,
    }
}

/// The text shown for one output of a code cell.
pub open spec fn output_text(out: JsonValue) -> Seq<char> {
    let kind = str_or(json_get(out, "output_type"@), Seq::empty());
    if kind == "stream"@ {
        match json_get(out, "text"@) {
            Some(t) => line_terminated(source_text(t)),
            None => Seq::empty(),
        }
    } else if kind == "execute_result"@ || kind == "display_data"@ {
        match json_get(out, "data"@) {
            Some(data) => match json_get(data, "text/plain"@) {
                Some(t) => line_terminated(source_text(t)),
                None => Seq::empty(),
            },
            None => Seq::empty(),
        }
    } else if kind == "error"@ {
        (str_or(json_get(out, "ename"@), "Error"@) + ": "@ + str_or(
            json_get(out, "evalue"@),
            Seq::empty(),
        )).push('\n')
    } else {
        Seq::empty()
    }
}

/// The texts of `outs`, one after the other.
pub open spec fn outputs_text(outs: Seq<JsonValue>) -> Seq<char>
    decreases outs.len(),
{
    if outs.len() == 0 {
        Seq::empty()
    } else {
        outputs_text(outs.drop_last()) + output_text(outs.last())
    }
}

/// The outputs section of a code cell: empty where the cell has no
/// non-empty `outputs` array.
pub open spec fn cell_outputs_text(cell: JsonValue) -> Seq<char> {
    match json_get(cell, "outputs"@) {
        Some(JsonValue::Array(outs)) => if outs.len() == 0 {
            Seq::empty()
        } else {
            ("Output:\n"@ + outputs_text(outs)).push('\n')
        },
        _ => Seq::empty(),
    }
}

/// The block for the markdown cell at position `idx` (from 0).
pub open spec fn markdown_block(idx: nat, cell: JsonValue) -> Seq<char> {
    "Markdown Cell #"@ + decimal(idx + 1) + ":\n"@ + match json_get(cell, "source"@) {
        Some(src) => line_terminated(source_text(src)).push('\n'),
        None => Seq::empty(),
    }
}

/// The blocks of the markdown cells `cells`, numbered from 1.
pub open spec fn markdown_section(cells: Seq<JsonValue>) -> Seq<char>
    decreases cells.len(),
{
    if cells.len() == 0 {
        Seq::empty()
    } else {
        markdown_section(cells.drop_last()) + markdown_block(
            (cells.len() - 1) as nat,
            cells.last(),
        )
    }
}

/// The block for the code cell at position `idx` (from 0), with its outputs
/// when `with_outputs` holds.
pub open spec fn code_block(idx: nat, cell: JsonValue, with_outputs: bool) -> Seq<char> {
    "Code Cell #"@ + decimal(idx + 1) + ":\n"@ + match json_get(cell, "source"@) {
        Some(src) => "```python\n"@ + line_terminated(source_text(src)) + "```\n\n"@,
        None => Seq::empty(),
    } + if with_outputs {
        cell_outputs_text(cell)
    } else {
        Seq::empty()
    }
}

/// The blocks of the code cells `cells`, numbered from 1.
pub open spec fn code_section(cells: Seq<JsonValue>, with_outputs: bool) -> Seq<char>
    decreases cells.len(),
{
    if cells.len() == 0 {
        Seq::empty()
    } else {
        code_section(cells.drop_last(), with_outputs) + code_block(
            (cells.len() - 1) as nat,
            cells.last(),
            with_outputs,
        )
    }
}

/// The opening lines: the title and the cell counts.
pub open spec fn summary_header(total: nat, code: nat, markdown: nat, raw: nat) -> Seq<char> {
    "Jupyter Notebook Summary:\n"@ + "Total cells: "@ + decimal(total) + " ("@ + decimal(code)
        + " code, "@ + decimal(markdown) + " markdown, "@ + decimal(raw) + " raw)\n\n"@
}

/// How many code cells are shown: at most `max`, and no more than there are.
pub open spec fn shown_code_cells(max: nat, code: nat) -> nat {
    if max < code {
        max
    } else {
        code
    }
}

/// The closing line that counts the code cells left out.
pub open spec fn omitted_note(count: nat) -> Seq<char> {
    "... ["@ + decimal(count) + " more code cells omitted]\n"@
}

/// The summary of a notebook's cells under `config`.
pub open spec fn cells_summary(config: IpynbProcessorConfig, cells: Seq<JsonValue>) -> Seq<char> {
    let code = code_cells(cells);
    let markdown = markdown_cells(cells);
    let shown = shown_code_cells(config.max_code_cells as nat, code.len());
    summary_header(cells.len(), code.len(), markdown.len(), raw_cells(cells).len()) + (if config.include_markdown {
        markdown_section(markdown)
    } else {
        Seq::empty()
    }) + if code.len() == 0 {
        "(No code cells found)\n"@
    } else {
        code_section(code.take(shown as int), config.include_outputs) + if code.len() > shown {
            omitted_note((code.len() - shown) as nat)
        } else {
            Seq::empty()
        }
    }
}

/// The summary of a notebook document under `config`, or why there is none.
pub open spec fn notebook_summary(config: IpynbProcessorConfig, notebook: JsonValue) -> Result<
    Seq<char>,
    ProcessErrorValue,
> {
    match json_get(notebook, "cells"@) {
        Some(JsonValue::Array(cells)) => Ok(cells_summary(config, cells)),
        _ => Err(ProcessErrorValue::MissingCells),
    }
}

/// What processing the bytes of a notebook file gives under `config`.
pub open spec fn notebook_file_summary(config: IpynbProcessorConfig, content: Seq<u8>) -> Result<
    Seq<char>,
    ProcessErrorValue,
> {
    match json_parse_outcome(content) {
        Ok(notebook) => notebook_summary(config, notebook),
        Err(report) => Err(ProcessErrorValue::InvalidNotebookJson(report)),
    }
}

/// What processing with a fallback gives: the summary, or the file's raw
/// text where there is no summary.
pub open spec fn summary_or_text(config: IpynbProcessorConfig, content: Seq<u8>) -> Seq<char> {
    match notebook_file_summary(config, content) {
        Ok(t) => t,
        Err(_) => utf8_lossy(content),
    }
}

/// `idx` holds, in order, the positions in `cells` of the cells of `sel`.
pub open spec fn picks(idx: Seq<usize>, cells: Seq<JsonValue>, sel: Seq<JsonValue>) -> bool {
    &&& idx.len() == sel.len()
    &&& forall|k: int|
        0 <= k < idx.len() ==> #[trigger] idx[k] < cells.len() && cells[idx[k] as int] == sel[k]
}

/// The cell type names differ from one another.
proof fn lemma_cell_type_names_distinct()
    ensures
        "unknown"@ != "code"@,
        "unknown"@ != "markdown"@,
        "unknown"@ != "raw"@,
        "code"@ != "markdown"@,
        "code"@ != "raw"@,
        "markdown"@ != "raw"@,
{
    reveal_strlit("unknown");
    reveal_strlit("code");
    reveal_strlit("markdown");
    reveal_strlit("raw");
    assert("unknown"@.len() == 7);
    assert("code"@.len() == 4);
    assert("markdown"@.len() == 8);
    assert("raw"@.len() == 3);
}

/// The output type names differ from one another and from the empty text.
proof fn lemma_output_type_names_distinct()
    ensures
        "stream"@ != Seq::<char>::empty(),
        "execute_result"@ != Seq::<char>::empty(),
        "display_data"@ != Seq::<char>::empty(),
        "error"@ != Seq::<char>::empty(),
        "stream"@ != "execute_result"@,
        "stream"@ != "display_data"@,
        "stream"@ != "error"@,
        "execute_result"@ != "display_data"@,
        "execute_result"@ != "error"@,
        "display_data"@ != "error"@,
{
    reveal_strlit("stream");
    reveal_strlit("execute_result");
    reveal_strlit("display_data");
    reveal_strlit("error");
    assert("stream"@.len() == 6);
    assert("execute_result"@.len() == 14);
    assert("display_data"@.len() == 12);
    assert("error"@.len() == 5);
}

/// There are no more raw cells than cells.
proof fn lemma_raw_count_bound(cells: Seq<JsonValue>)
    ensures
        raw_cells(cells).len() <= cells.len(),
{
    cells.lemma_filter_len(|c: JsonValue| cell_type(c) == "raw"@);
}

/// No cells have a type in an empty notebook.
proof fn lemma_cells_of_type_empty(t: Seq<char>)
    ensures
        cells_of_type(Seq::empty(), t) == Seq::<JsonValue>::empty(),
{
    reveal(Seq::filter);
}

/// The cells of type `t` among the first `i + 1` cells.
proof fn lemma_cells_of_type_step(cells: Seq<JsonValue>, i: int, t: Seq<char>)
    requires
        0 <= i < cells.len(),
    ensures
        cells_of_type(cells.take(i + 1), t) == if cell_type(cells[i]) == t {
            cells_of_type(cells.take(i), t).push(cells[i])
        } else {
            cells_of_type(cells.take(i), t)
        },
{
    reveal(Seq::filter);
    assert(cells.take(i + 1).drop_last() =~= cells.take(i));
}

// ---------------------------------------------------------------------------
// The processor
// ---------------------------------------------------------------------------

/// Jupyter Notebook processor that extracts code cells and metadata.
pub struct JupyterNotebookProcessor {
    config: IpynbProcessorConfig,
}

impl Default for JupyterNotebookProcessor {
    fn default() -> (res: Self)
        ensures
            res.config() == super::default_ipynb_config(),
    {
        JupyterNotebookProcessor { config: IpynbProcessorConfig::default() }
    }
}

/// A key of a JSON object, as a string.
fn key(k: &str) -> (res: String)
    ensures
        res@ == k@,
{
    String::from_str(k)
}

/// Whether an optional string field holds exactly `lit`.
fn field_is(field: Option<&String>, lit: &str) -> (res: bool)
    ensures
        res == (field matches Some(s) && s@ == lit@),
{
    match field {
        Some(s) => *s == String::from_str(lit),
        None => false,
    }
}

/// A field of `v` as a string, when there is one.
fn str_field<'a>(v: &'a Json, k: &str) -> (res: Option<&'a String>)
    ensures
        res is Some <==> opt_as_str(json_get(v@, k@)) is Some,
        res matches Some(s) ==> opt_as_str(json_get(v@, k@)) == Some(s@),
{
    match v.get(&key(k)) {
        Some(f) => f.as_str(),
        None => None,
    }
}

impl JupyterNotebookProcessor {
    /// The configuration of this processor.
    pub closed spec fn config(&self) -> IpynbProcessorConfig {
        self.config
    }

    /// Creates a processor with the given configuration.
    pub fn new(config: IpynbProcessorConfig) -> (res: Self)
        ensures
            res.config() == config,
    {
        Self { config }
    }

    /// The text of a source (or output text) field.
    pub fn extract_source(source: &Json) -> (res: String)
        ensures
            res@ == source_text(source@),
    {
        match source.as_str() {
            Some(s) => {
                return s.clone();
            },
            None => {},
        }
        match source.as_array() {
            Some(items) => {
                let ghost vs = json_values(items@);
                let mut res = String::new();
                let mut i: usize = 0;
                while i < items.len()
                    invariant
                        0 <= i <= items@.len(),
                        vs == json_values(items@),
                        source@ == JsonValue::Array(vs),
                        res@ == joined_strings(vs.take(i as int)),
                    decreases items@.len() - i,
                {
                    proof {
                        assert(vs.take(i + 1).drop_last() =~= vs.take(i as int));
                    }
                    match items[i].as_str() {
                        Some(s) => {
                            res.append(s.as_str());
                        },
                        None => {},
                    }
                    i = i + 1;
                }
                proof {
                    assert(vs.take(items@.len() as int) =~= vs);
                }
                res
            },
            None => {
                let res = String::from_str("(Unable to extract source)");
                res
            },
        }
    }

    /// Appends the text of one output of a code cell.
    #[verifier::spinoff_prover]
    fn append_output(output: &mut String, out: &Json)
        ensures
            final(output)@ == old(output)@ + output_text(out@),
    {
        proof {
            lemma_output_type_names_distinct();
        }
        let kind = str_field(out, "output_type");
        if field_is(kind, "stream") {
            match out.get(&key("text")) {
                Some(t) => {
                    let text = Self::extract_source(t);
                    append_line_terminated(output, &text);
                },
                None => {},
            }
        } else if field_is(kind, "execute_result") || field_is(kind, "display_data") {
            match out.get(&key("data")) {
                Some(data) => match data.get(&key("text/plain")) {
                    Some(t) => {
                        let text = Self::extract_source(t);
                        append_line_terminated(output, &text);
                    },
                    None => {},
                },
                None => {},
            }
        } else if field_is(kind, "error") {
            match str_field(out, "ename") {
                Some(s) => output.append(s.as_str()),
                None => output.append("Error"),
            }
            output.append(": ");
            match str_field(out, "evalue") {
                Some(s) => output.append(s.as_str()),
                None => {},
            }
            push_newline(output);
        }
        assert(output@ =~= old(output)@ + output_text(out@));
    }

    /// Appends the outputs section of a code cell.
    fn append_outputs(output: &mut String, cell: &Json)
        ensures
            final(output)@ == old(output)@ + cell_outputs_text(cell@),
    {
        let outputs = match cell.get(&key("outputs")) {
            Some(v) => v.as_array(),
            None => None,
        };
        let outputs = match outputs {
            Some(outs) => outs,
            None => {
                return ;
            },
        };
        if outputs.len() == 0 {
            return ;
        }
        let ghost vs = json_values(outputs@);
        let ghost start = output@;
        output.append("Output:\n");
        let mut i: usize = 0;
        while i < outputs.len()
            invariant
                0 <= i <= outputs@.len(),
                vs == json_values(outputs@),
                output@ == start + "Output:\n"@ + outputs_text(vs.take(i as int)),
            decreases outputs@.len() - i,
        {
            proof {
                assert(vs.take(i + 1).drop_last() =~= vs.take(i as int));
            }
            Self::append_output(output, &outputs[i]);
            i = i + 1;
        }
        proof {
            assert(vs.take(outputs@.len() as int) =~= vs);
        }
        push_newline(output);
    }
}


impl JupyterNotebookProcessor {
    /// Appends the block of the markdown cell at position `idx`.
    fn append_markdown_block(out: &mut String, idx: usize, cell: &Json)
        requires
            idx < usize::MAX,
        ensures
            final(out)@ == old(out)@ + markdown_block(idx as nat, cell@),
    {
        out.append("Markdown Cell #");
        append_decimal(out, idx + 1);
        out.append(":\n");
        match cell.get(&key("source")) {
            Some(src) => {
                let text = Self::extract_source(src);
                append_line_terminated(out, &text);
                push_newline(out);
            },
            None => {},
        }
        assert(out@ =~= old(out)@ + markdown_block(idx as nat, cell@));
    }

    /// Appends the block of the code cell at position `idx`.
    fn append_code_block(out: &mut String, idx: usize, cell: &Json, with_outputs: bool)
        requires
            idx < usize::MAX,
        ensures
            final(out)@ == old(out)@ + code_block(idx as nat, cell@, with_outputs),
    {
        out.append("Code Cell #");
        append_decimal(out, idx + 1);
        out.append(":\n");
        match cell.get(&key("source")) {
            Some(src) => {
                let code = Self::extract_source(src);
                out.append("```python\n");
                append_line_terminated(out, &code);
                out.append("```\n\n");
            },
            None => {},
        }
        if with_outputs {
            Self::append_outputs(out, cell);
        }
        assert(out@ =~= old(out)@ + code_block(idx as nat, cell@, with_outputs));
    }

    /// Sorts the cells by type: the positions of the code cells and of the
    /// markdown cells, and the number of raw cells.
    fn classify_cells(cells: &Vec<Json>) -> (res: (Vec<usize>, Vec<usize>, usize))
        ensures
            picks(res.0@, json_values(cells@), code_cells(json_values(cells@))),
            picks(res.1@, json_values(cells@), markdown_cells(json_values(cells@))),
            res.2 == raw_cells(json_values(cells@)).len(),
    {
        let ghost cv = json_values(cells@);
        proof {
            assert(cv.take(0) =~= Seq::<JsonValue>::empty());
            lemma_cells_of_type_empty("code"@);
            lemma_cells_of_type_empty("markdown"@);
            lemma_cells_of_type_empty("raw"@);
        }
        let mut code_idx: Vec<usize> = Vec::new();
        let mut md_idx: Vec<usize> = Vec::new();
        let mut raw_count: usize = 0;
        let mut i: usize = 0;
        while i < cells.len()
            invariant
                0 <= i <= cells@.len(),
                cv == json_values(cells@),
                picks(code_idx@, cv, code_cells(cv.take(i as int))),
                picks(md_idx@, cv, markdown_cells(cv.take(i as int))),
                raw_count == raw_cells(cv.take(i as int)).len(),
                raw_count <= i,
            decreases cells@.len() - i,
        {
            let ty = str_field(&cells[i], "cell_type");
            proof {
                lemma_cell_type_names_distinct();
                lemma_cells_of_type_step(cv, i as int, "code"@);
                lemma_cells_of_type_step(cv, i as int, "markdown"@);
                lemma_cells_of_type_step(cv, i as int, "raw"@);
                lemma_raw_count_bound(cv.take(i + 1));
                assert(cells@[i as int]@ == cv[i as int]);
            }
            if field_is(ty, "code") {
                code_idx.push(i);
            } else if field_is(ty, "markdown") {
                md_idx.push(i);
            } else if field_is(ty, "raw") {
                raw_count = raw_count + 1;
            }
            i = i + 1;
        }
        proof {
            assert(cv.take(cells@.len() as int) =~= cv);
        }
        (code_idx, md_idx, raw_count)
    }

    /// Appends the blocks of the markdown cells, picked from `cells` at the
    /// positions `md_idx`.
    fn append_markdown_section(out: &mut String, cells: &Vec<Json>, md_idx: &Vec<usize>)
        requires
            picks(md_idx@, json_values(cells@), markdown_cells(json_values(cells@))),
        ensures
            final(out)@ == old(out)@ + markdown_section(markdown_cells(json_values(cells@))),
    {
        let ghost cv = json_values(cells@);
        let ghost md = markdown_cells(cv);
        let ghost start = out@;
        let mut j: usize = 0;
        assert(md.take(0) =~= Seq::<JsonValue>::empty());
        while j < md_idx.len()
            invariant
                0 <= j <= md_idx@.len(),
                cv == json_values(cells@),
                md == markdown_cells(cv),
                picks(md_idx@, cv, md),
                out@ == start + markdown_section(md.take(j as int)),
            decreases md_idx@.len() - j,
        {
            let cell = &cells[md_idx[j]];
            proof {
                assert(md_idx@[j as int] < cells@.len());
                assert(cell@ == md[j as int]);
                assert(md.take(j + 1).drop_last() =~= md.take(j as int));
            }
            Self::append_markdown_block(out, j, cell);
            j = j + 1;
        }
        proof {
            assert(md.take(md_idx@.len() as int) =~= md);
        }
    }

    /// Appends the blocks of the first `shown` code cells, picked from
    /// `cells` at the positions `code_idx`.
    fn append_code_section(
        out: &mut String,
        cells: &Vec<Json>,
        code_idx: &Vec<usize>,
        shown: usize,
        with_outputs: bool,
    )
        requires
            picks(code_idx@, json_values(cells@), code_cells(json_values(cells@))),
            shown <= code_idx@.len(),
        ensures
            final(out)@ == old(out)@ + code_section(
                code_cells(json_values(cells@)).take(shown as int),
                with_outputs,
            ),
    {
        let ghost cv = json_values(cells@);
        let ghost shown_code = code_cells(cv).take(shown as int);
        let ghost start = out@;
        let mut j: usize = 0;
        assert(shown_code.take(0) =~= Seq::<JsonValue>::empty());
        while j < shown
            invariant
                0 <= j <= shown <= code_idx@.len(),
                cv == json_values(cells@),
                shown_code == code_cells(cv).take(shown as int),
                picks(code_idx@, cv, code_cells(cv)),
                out@ == start + code_section(shown_code.take(j as int), with_outputs),
            decreases shown - j,
        {
            let cell = &cells[code_idx[j]];
            proof {
                assert(code_idx@[j as int] < cells@.len());
                assert(cell@ == shown_code[j as int]);
                assert(shown_code.take(j + 1).drop_last() =~= shown_code.take(j as int));
            }
            Self::append_code_block(out, j, cell, with_outputs);
            j = j + 1;
        }
        proof {
            assert(shown_code.take(shown as int) =~= shown_code);
        }
    }

    /// The summary of the cells of a notebook.
    #[verifier::spinoff_prover]
    fn summarize_cells(&self, cells: &Vec<Json>) -> (res: String)
        ensures
            res@ == cells_summary(self.config, json_values(cells@)),
    {
        let ghost cv = json_values(cells@);
        let ghost code = code_cells(cv);
        let ghost md = markdown_cells(cv);
        let (code_idx, md_idx, raw_count) = Self::classify_cells(cells);

        // The title and the counts.
        let mut out = String::new();
        Self::append_summary_header(&mut out, cells.len(), code_idx.len(), md_idx.len(), raw_count);
        let ghost header = out@;

        // The markdown cells, when asked for.
        if self.config.include_markdown {
            Self::append_markdown_section(&mut out, cells, &md_idx);
        }
        let ghost markdown_part = if self.config.include_markdown {
            markdown_section(md)
        } else {
            Seq::empty()
        };
        assert(out@ =~= header + markdown_part);
        let ghost after_markdown = out@;

        // The code cells, up to the configured number.
        if code_idx.len() == 0 {
            out.append("(No code cells found)\n");
            assert(out@ =~= cells_summary(self.config, cv));
            return out;
        }
        let shown: usize = if self.config.max_code_cells < code_idx.len() {
            self.config.max_code_cells
        } else {
            code_idx.len()
        };
        Self::append_code_section(&mut out, cells, &code_idx, shown, self.config.include_outputs);
        if code_idx.len() > shown {
            Self::append_omitted_note(&mut out, code_idx.len() - shown);
        }
        let ghost code_part = code_section(code.take(shown as int), self.config.include_outputs)
            + if code.len() > shown {
            omitted_note((code.len() - shown) as nat)
        } else {
            Seq::empty()
        };
        assert(out@ =~= after_markdown + code_part);
        out
    }

    /// Appends the title and the cell counts.
    fn append_summary_header(out: &mut String, total: usize, code: usize, markdown: usize, raw: usize)
        ensures
            final(out)@ == old(out)@ + summary_header(
                total as nat,
                code as nat,
                markdown as nat,
                raw as nat,
            ),
    {
        out.append("Jupyter Notebook Summary:\n");
        out.append("Total cells: ");
        append_decimal(out, total);
        out.append(" (");
        append_decimal(out, code);
        out.append(" code, ");
        append_decimal(out, markdown);
        out.append(" markdown, ");
        append_decimal(out, raw);
        out.append(" raw)\n\n");
        assert(out@ =~= old(out)@ + summary_header(
            total as nat,
            code as nat,
            markdown as nat,
            raw as nat,
        ));
    }

    /// Appends the line that counts the code cells left out.
    fn append_omitted_note(out: &mut String, count: usize)
        ensures
            final(out)@ == old(out)@ + omitted_note(count as nat),
    {
        out.append("... [");
        append_decimal(out, count);
        out.append(" more code cells omitted]\n");
        assert(out@ =~= old(out)@ + omitted_note(count as nat));
    }

    /// The summary of a parsed notebook document, or why there is none: the
    /// document must hold a `cells` array.
    pub fn summarize(&self, notebook: &Json) -> (res: Result<String, ProcessError>)
        ensures
            result_text(res) == notebook_summary(self.config(), notebook@),
    {
        let cells = match notebook.get(&key("cells")) {
            Some(c) => c.as_array(),
            None => None,
        };
        match cells {
            Some(cells) => Ok(self.summarize_cells(cells)),
            None => Err(ProcessError::MissingCells),
        }
    }

    /// Processes a notebook, and where that fails, gives the file's raw text
    /// instead, together with the error that made it fall back.
    pub fn process_or_fallback(&self, content: &[u8]) -> (res: (String, Option<ProcessError>))
        ensures
            res.0@ == summary_or_text(self.config(), content@),
            notebook_file_summary(self.config(), content@) matches Ok(t) ==> res.0@ == t,
            notebook_file_summary(self.config(), content@) is Err ==> res.0@ == utf8_lossy(
                content@,
            ),
            match res.1 {
                None => notebook_file_summary(self.config(), content@) is Ok,
                Some(e) => notebook_file_summary(self.config(), content@) == Err::<
                    Seq<char>,
                    ProcessErrorValue,
                >(e@),
            },
    {
        match self.process(content) {
            Ok(result) => (result, None),
            Err(e) => {
                let fallback = DefaultTextProcessor;
                let text = fallback.process(content).unwrap();
                (text, Some(e))
            },
        }
    }

    /// Processes a notebook, and where that fails, gives the file's raw text
    /// instead; this never fails.
    pub fn process_with_fallback(&self, content: &[u8]) -> (res: Result<String, ProcessError>)
        ensures
            res matches Ok(s) && s@ == summary_or_text(self.config(), content@),
            notebook_file_summary(self.config(), content@) matches Ok(t) ==> (res matches Ok(s)
                && s@ == t),
            notebook_file_summary(self.config(), content@) is Err ==> (res matches Ok(s) && s@
                == utf8_lossy(content@)),
    {
        let (text, _) = self.process_or_fallback(content);
        Ok(text)
    }
}

impl FileProcessor for JupyterNotebookProcessor {
    /// Parses the notebook's JSON and summarises its cells.
    fn process(&self, content: &[u8]) -> (res: Result<String, ProcessError>)
        ensures
            result_text(res) == notebook_file_summary(self.config(), content@),
    {
        match parse_json(content) {
            Ok(notebook) => self.summarize(&notebook),
            Err(report) => Err(ProcessError::InvalidNotebookJson { cause: report }),
        }
    }
}

// ---------------------------------------------------------------------------
// Laws
// ---------------------------------------------------------------------------

/// Every cell is counted at most once: the code, markdown and raw cells
/// together are no more than all the cells.
pub proof fn law_cell_counts_bounded(cells: Seq<JsonValue>)
    ensures
        code_cells(cells).len() + markdown_cells(cells).len() + raw_cells(cells).len()
            <= cells.len(),
    decreases cells.len(),
{
    if cells.len() == 0 {
        assert(cells =~= Seq::<JsonValue>::empty());
        lemma_cells_of_type_empty("code"@);
        lemma_cells_of_type_empty("markdown"@);
        lemma_cells_of_type_empty("raw"@);
    } else {
        let n = cells.len() - 1;
        law_cell_counts_bounded(cells.take(n));
        lemma_cell_type_names_distinct();
        lemma_cells_of_type_step(cells, n, "code"@);
        lemma_cells_of_type_step(cells, n, "markdown"@);
        lemma_cells_of_type_step(cells, n, "raw"@);
        assert(cells.take(n + 1) =~= cells);
    }
}

/// The number of code cells shown is `min(max_code_cells, code cells)`; the
/// closing note counts the others.
pub proof fn law_code_cells_accounted(max: nat, code: nat)
    ensures
        shown_code_cells(max, code) <= max,
        shown_code_cells(max, code) <= code,
        shown_code_cells(max, code) == max || shown_code_cells(max, code) == code,
{
}

/// Asking for outputs only appends each code cell's outputs right after that
/// cell's block.
pub proof fn law_outputs_follow_code_block(idx: nat, cell: JsonValue)
    ensures
        code_block(idx, cell, true) == code_block(idx, cell, false) + cell_outputs_text(cell),
{
    assert(code_block(idx, cell, true) =~= code_block(idx, cell, false) + cell_outputs_text(cell));
}

/// A cap on the code cells at or above their number changes nothing: the
/// summary shows them all either way.
pub proof fn law_cap_beyond_code_count(
    c1: IpynbProcessorConfig,
    c2: IpynbProcessorConfig,
    cells: Seq<JsonValue>,
)
    requires
        c1.include_outputs == c2.include_outputs,
        c1.include_markdown == c2.include_markdown,
        c1.max_code_cells >= code_cells(cells).len(),
        c2.max_code_cells >= code_cells(cells).len(),
    ensures
        cells_summary(c1, cells) == cells_summary(c2, cells),
{
}

/// Asking for markdown cells only inserts their blocks right after the
/// title and counts; the rest of the summary is the same.
pub proof fn law_markdown_blocks_follow_header(config: IpynbProcessorConfig, cells: Seq<JsonValue>)
    ensures
        ({
            let with_md = IpynbProcessorConfig { include_markdown: true, ..config };
            let without_md = IpynbProcessorConfig { include_markdown: false, ..config };
            let header = summary_header(
                cells.len(),
                code_cells(cells).len(),
                markdown_cells(cells).len(),
                raw_cells(cells).len(),
            );
            &&& header.is_prefix_of(cells_summary(without_md, cells))
            &&& cells_summary(with_md, cells) == header + markdown_section(markdown_cells(cells))
                + cells_summary(without_md, cells).skip(header.len() as int)
        }),
{
    let with_md = IpynbProcessorConfig { include_markdown: true, ..config };
    let without_md = IpynbProcessorConfig { include_markdown: false, ..config };
    let header = summary_header(
        cells.len(),
        code_cells(cells).len(),
        markdown_cells(cells).len(),
        raw_cells(cells).len(),
    );
    let code = code_cells(cells);
    let shown = shown_code_cells(config.max_code_cells as nat, code.len());
    let rest = if code.len() == 0 {
        "(No code cells found)\n"@
    } else {
        code_section(code.take(shown as int), config.include_outputs) + if code.len() > shown {
            omitted_note((code.len() - shown) as nat)
        } else {
            Seq::empty()
        }
    };
    assert(cells_summary(without_md, cells) =~= header + rest);
    assert((header + rest).skip(header.len() as int) =~= rest);
    assert(cells_summary(with_md, cells) =~= header + markdown_section(markdown_cells(cells)) + rest);
    assert(header.is_prefix_of(header + rest)) by {
        assert((header + rest).take(header.len() as int) =~= header);
    }
}

/// Every summary of a notebook file opens with the title line.
pub proof fn law_summary_starts_with_title(config: IpynbProcessorConfig, content: Seq<u8>)
    ensures
        notebook_file_summary(config, content) matches Ok(t) ==> "Jupyter Notebook Summary:\n"@.is_prefix_of(t),
{
    if let Ok(t) = notebook_file_summary(config, content) {
        let title = "Jupyter Notebook Summary:\n"@;
        assert(t.take(title.len() as int) =~= title);
    }
}

/// Joining the strings of an array source distributes over concatenation,
/// and an empty array joins to the empty text.
pub proof fn law_joined_strings_concat(a: Seq<JsonValue>, b: Seq<JsonValue>)
    ensures
        joined_strings(Seq::empty()) == Seq::<char>::empty(),
        joined_strings(a + b) == joined_strings(a) + joined_strings(b),
        source_text(JsonValue::Array(Seq::empty())) == Seq::<char>::empty(),
        source_text(JsonValue::Array(a + b)) == source_text(JsonValue::Array(a)) + source_text(
            JsonValue::Array(b),
        ),
    decreases b.len(),
{
    if b.len() == 0 {
        assert(a + b =~= a);
        assert(joined_strings(a) + joined_strings(b) =~= joined_strings(a));
    } else {
        law_joined_strings_concat(a, b.drop_last());
        assert((a + b).drop_last() =~= a + b.drop_last());
        assert((a + b).last() == b.last());
        let piece = match b.last() {
            JsonValue::Str(s) => s,
            _ => Seq::empty(),
        };
        assert(joined_strings(a + b) == joined_strings(a + b.drop_last()) + piece);
        assert(joined_strings(b) == joined_strings(b.drop_last()) + piece);
        assert(joined_strings(a + b) =~= joined_strings(a) + joined_strings(b));
    }
}

/// The code blocks of fewer code cells are a prefix of those of more.
proof fn lemma_code_section_prefix(cells: Seq<JsonValue>, with_outputs: bool, i: int, j: int)
    requires
        0 <= i <= j <= cells.len(),
    ensures
        code_section(cells.take(i), with_outputs).is_prefix_of(
            code_section(cells.take(j), with_outputs),
        ),
    decreases j - i,
{
    if i == j {
        let t = code_section(cells.take(i), with_outputs);
        assert(t.subrange(0, t.len() as int) =~= t);
    } else {
        lemma_code_section_prefix(cells, with_outputs, i, j - 1);
        assert(cells.take(j).drop_last() =~= cells.take(j - 1));
        let short = code_section(cells.take(i), with_outputs);
        let mid = code_section(cells.take(j - 1), with_outputs);
        let long = code_section(cells.take(j), with_outputs);
        assert(long == mid + code_block((j - 1) as nat, cells.take(j).last(), with_outputs));
        assert(long.subrange(0, short.len() as int) =~= mid.subrange(0, short.len() as int));
    }
}

/// A smaller cap on the code cells shows a prefix of the code blocks that a
/// larger cap shows.
pub proof fn law_smaller_cap_gives_prefix(
    small: IpynbProcessorConfig,
    large: IpynbProcessorConfig,
    cells: Seq<JsonValue>,
)
    requires
        small.include_outputs == large.include_outputs,
        small.max_code_cells <= large.max_code_cells,
    ensures
        ({
            let code = code_cells(cells);
            code_section(
                code.take(shown_code_cells(small.max_code_cells as nat, code.len()) as int),
                small.include_outputs,
            ).is_prefix_of(
                code_section(
                    code.take(shown_code_cells(large.max_code_cells as nat, code.len()) as int),
                    large.include_outputs,
                ),
            )
        }),
{
    let code = code_cells(cells);
    lemma_code_section_prefix(
        code,
        small.include_outputs,
        shown_code_cells(small.max_code_cells as nat, code.len()) as int,
        shown_code_cells(large.max_code_cells as nat, code.len()) as int,
    );
}

/// Two cells that a summary under `config` cannot tell apart: the same
/// type, the same source for a code cell (and the same outputs where they
/// are shown), the same source for a markdown cell where those are shown.
pub open spec fn cells_alike(config: IpynbProcessorConfig, a: JsonValue, b: JsonValue) -> bool {
    &&& cell_type(a) == cell_type(b)
    &&& cell_type(a) == "code"@ ==> json_get(a, "source"@) == json_get(b, "source"@)
    &&& cell_type(a) == "code"@ && config.include_outputs ==> cell_outputs_text(a)
        == cell_outputs_text(b)
    &&& cell_type(a) == "markdown"@ && config.include_markdown ==> json_get(a, "source"@)
        == json_get(b, "source"@)
}

/// Cells alike one by one stay alike once picked by type.
proof fn lemma_cells_of_type_alike(
    config: IpynbProcessorConfig,
    c1: Seq<JsonValue>,
    c2: Seq<JsonValue>,
    t: Seq<char>,
    n: int,
)
    requires
        c1.len() == c2.len(),
        0 <= n <= c1.len(),
        forall|i: int| 0 <= i < c1.len() ==> cells_alike(config, #[trigger] c1[i], c2[i]),
    ensures
        cells_of_type(c1.take(n), t).len() == cells_of_type(c2.take(n), t).len(),
        forall|k: int|
            0 <= k < cells_of_type(c1.take(n), t).len() ==> cells_alike(
                config,
                #[trigger] cells_of_type(c1.take(n), t)[k],
                cells_of_type(c2.take(n), t)[k],
            ) && cell_type(cells_of_type(c1.take(n), t)[k]) == t,
    decreases n,
{
    if n == 0 {
        assert(c1.take(0) =~= Seq::<JsonValue>::empty());
        assert(c2.take(0) =~= Seq::<JsonValue>::empty());
        lemma_cells_of_type_empty(t);
    } else {
        lemma_cells_of_type_alike(config, c1, c2, t, n - 1);
        lemma_cells_of_type_step(c1, n - 1, t);
        lemma_cells_of_type_step(c2, n - 1, t);
        assert(cells_alike(config, c1[n - 1], c2[n - 1]));
    }
}

/// The code blocks of code cells alike one by one are the same.
proof fn lemma_code_section_alike(config: IpynbProcessorConfig, s1: Seq<JsonValue>, s2: Seq<JsonValue>)
    requires
        s1.len() == s2.len(),
        forall|k: int|
            0 <= k < s1.len() ==> cells_alike(config, #[trigger] s1[k], s2[k]) && cell_type(s1[k])
                == "code"@,
    ensures
        code_section(s1, config.include_outputs) == code_section(s2, config.include_outputs),
    decreases s1.len(),
{
    if s1.len() > 0 {
        let n = s1.len() - 1;
        lemma_code_section_alike(config, s1.drop_last(), s2.drop_last());
        assert(cells_alike(config, s1[n], s2[n]) && cell_type(s1[n]) == "code"@);
        assert(code_block(n as nat, s1.last(), config.include_outputs) == code_block(
            n as nat,
            s2.last(),
            config.include_outputs,
        ));
    }
}

/// The markdown blocks of markdown cells alike one by one are the same,
/// where markdown cells are shown.
proof fn lemma_markdown_section_alike(
    config: IpynbProcessorConfig,
    s1: Seq<JsonValue>,
    s2: Seq<JsonValue>,
)
    requires
        config.include_markdown,
        s1.len() == s2.len(),
        forall|k: int|
            0 <= k < s1.len() ==> cells_alike(config, #[trigger] s1[k], s2[k]) && cell_type(s1[k])
                == "markdown"@,
    ensures
        markdown_section(s1) == markdown_section(s2),
    decreases s1.len(),
{
    if s1.len() > 0 {
        let n = s1.len() - 1;
        lemma_markdown_section_alike(config, s1.drop_last(), s2.drop_last());
        assert(cells_alike(config, s1[n], s2[n]) && cell_type(s1[n]) == "markdown"@);
    }
}

/// A summary under `config` is the same for two notebooks whose cells are
/// alike one by one.
pub proof fn law_summary_of_alike_cells(
    config: IpynbProcessorConfig,
    c1: Seq<JsonValue>,
    c2: Seq<JsonValue>,
)
    requires
        c1.len() == c2.len(),
        forall|i: int| 0 <= i < c1.len() ==> cells_alike(config, #[trigger] c1[i], c2[i]),
    ensures
        cells_summary(config, c1) == cells_summary(config, c2),
{
    assert(c1.take(c1.len() as int) =~= c1);
    assert(c2.take(c2.len() as int) =~= c2);
    lemma_cells_of_type_alike(config, c1, c2, "code"@, c1.len() as int);
    lemma_cells_of_type_alike(config, c1, c2, "markdown"@, c1.len() as int);
    lemma_cells_of_type_alike(config, c1, c2, "raw"@, c1.len() as int);
    let code1 = code_cells(c1);
    let code2 = code_cells(c2);
    if config.include_markdown {
        lemma_markdown_section_alike(config, markdown_cells(c1), markdown_cells(c2));
    }
    let shown = shown_code_cells(config.max_code_cells as nat, code1.len());
    assert forall|k: int|
        0 <= k < code1.take(shown as int).len() implies cells_alike(
        config,
        #[trigger] code1.take(shown as int)[k],
        code2.take(shown as int)[k],
    ) && cell_type(code1.take(shown as int)[k]) == "code"@ by {
        assert(code1.take(shown as int)[k] == code1[k]);
        assert(code2.take(shown as int)[k] == code2[k]);
    }
    lemma_code_section_alike(config, code1.take(shown as int), code2.take(shown as int));
}

/// Where outputs are not asked for, they do not change the summary: cells
/// with the same types and sources give the same summary.
pub proof fn law_outputs_ignored_without_include_outputs(
    config: IpynbProcessorConfig,
    c1: Seq<JsonValue>,
    c2: Seq<JsonValue>,
)
    requires
        !config.include_outputs,
        c1.len() == c2.len(),
        forall|i: int|
            0 <= i < c1.len() ==> cell_type(#[trigger] c1[i]) == cell_type(c2[i]) && json_get(
                c1[i],
                "source"@,
            ) == json_get(c2[i], "source"@),
    ensures
        cells_summary(config, c1) == cells_summary(config, c2),
{
    assert forall|i: int| 0 <= i < c1.len() implies cells_alike(config, #[trigger] c1[i], c2[i]) by {
        assert(cell_type(c1[i]) == cell_type(c2[i]));
    }
    law_summary_of_alike_cells(config, c1, c2);
}

/// Where markdown cells are not asked for, their contents do not change the
/// summary: cells with the same types, whose non-markdown cells are the
/// same, give the same summary.
pub proof fn law_markdown_ignored_without_include_markdown(
    config: IpynbProcessorConfig,
    c1: Seq<JsonValue>,
    c2: Seq<JsonValue>,
)
    requires
        !config.include_markdown,
        c1.len() == c2.len(),
        forall|i: int|
            0 <= i < c1.len() ==> cell_type(#[trigger] c1[i]) == cell_type(c2[i]) && (cell_type(
                c1[i],
            ) != "markdown"@ ==> c1[i] == c2[i]),
    ensures
        cells_summary(config, c1) == cells_summary(config, c2),
{
    assert forall|i: int| 0 <= i < c1.len() implies cells_alike(config, #[trigger] c1[i], c2[i]) by {
        lemma_cell_type_names_distinct();
        assert(cell_type(c1[i]) == cell_type(c2[i]));
    }
    law_summary_of_alike_cells(config, c1, c2);
}

/// The summary opens with the title and the counts of all cells, of the
/// cells whose `cell_type` is `code`, `markdown` and `raw`, in that order.
pub proof fn law_summary_header_counts(config: IpynbProcessorConfig, cells: Seq<JsonValue>)
    ensures
        ("Jupyter Notebook Summary:\n"@ + "Total cells: "@ + decimal(cells.len()) + " ("@ + decimal(
            cells.filter(
                |c: JsonValue| opt_as_str(json_get(c, "cell_type"@)) == Some("code"@),
            ).len(),
        ) + " code, "@ + decimal(
            cells.filter(
                |c: JsonValue| opt_as_str(json_get(c, "cell_type"@)) == Some("markdown"@),
            ).len(),
        ) + " markdown, "@ + decimal(
            cells.filter(|c: JsonValue| opt_as_str(json_get(c, "cell_type"@)) == Some("raw"@)).len(),
        ) + " raw)\n\n"@).is_prefix_of(cells_summary(config, cells)),
{
    lemma_cell_type_names_distinct();
    let p_code = |c: JsonValue| opt_as_str(json_get(c, "cell_type"@)) == Some("code"@);
    let p_md = |c: JsonValue| opt_as_str(json_get(c, "cell_type"@)) == Some("markdown"@);
    let p_raw = |c: JsonValue| opt_as_str(json_get(c, "cell_type"@)) == Some("raw"@);
    assert(p_code =~= (|c: JsonValue| cell_type(c) == "code"@));
    assert(p_md =~= (|c: JsonValue| cell_type(c) == "markdown"@));
    assert(p_raw =~= (|c: JsonValue| cell_type(c) == "raw"@));
    assert(cells.filter(p_code) == code_cells(cells));
    assert(cells.filter(p_md) == markdown_cells(cells));
    assert(cells.filter(p_raw) == raw_cells(cells));
    let h = summary_header(
        cells.len(),
        code_cells(cells).len(),
        markdown_cells(cells).len(),
        raw_cells(cells).len(),
    );
    let t = cells_summary(config, cells);
    assert(t.subrange(0, h.len() as int) =~= h);
}

/// A stream output shows the whole of its `text` field, read as a cell
/// source is (an array's strings all joined in order), ending with a line
/// feed; without a `text` field it shows nothing.
pub proof fn law_stream_output_text(out: JsonValue)
    requires
        opt_as_str(json_get(out, "output_type"@)) == Some("stream"@),
    ensures
        json_get(out, "text"@) matches Some(t) ==> output_text(out) == (if source_text(t).len()
            > 0 && source_text(t).last() == '\n' {
            source_text(t)
        } else {
            source_text(t).push('\n')
        }),
        json_get(out, "text"@) is None ==> output_text(out) == Seq::<char>::empty(),
{
}

/// A one-string array source reads as that string, so with the law on
/// joining, an array source reads as all its strings in order.
pub proof fn law_single_string_source(s: Seq<char>)
    ensures
        source_text(JsonValue::Array(seq![JsonValue::Str(s)])) == s,
        source_text(JsonValue::Str(s)) == s,
{
    let items = seq![JsonValue::Str(s)];
    assert(items.drop_last() =~= Seq::<JsonValue>::empty());
    assert(joined_strings(Seq::<JsonValue>::empty()) == Seq::<char>::empty());
    assert(items.last() == JsonValue::Str(s));
    assert(joined_strings(items) == joined_strings(items.drop_last()) + s);
    assert(Seq::<char>::empty() + s =~= s);
}

/// Each markdown cell adds one numbered block: the section of no cells is
/// empty, and the section of one more cell is the section before followed
/// by `Markdown Cell #n:` (n counting from 1) and the cell's source, ending
/// with a line feed, then an empty line.
pub proof fn law_markdown_section_grows(cells: Seq<JsonValue>, cell: JsonValue)
    ensures
        markdown_section(Seq::empty()) == Seq::<char>::empty(),
        markdown_section(cells.push(cell)) == markdown_section(cells) + "Markdown Cell #"@ + decimal(
            cells.len() + 1,
        ) + ":\n"@ + match json_get(cell, "source"@) {
            Some(src) => (if source_text(src).len() > 0 && source_text(src).last() == '\n' {
                source_text(src)
            } else {
                source_text(src).push('\n')
            }).push('\n'),
            None => Seq::empty(),
        },
{
    assert(cells.push(cell).drop_last() =~= cells);
    assert(markdown_section(cells.push(cell)) =~= markdown_section(cells) + "Markdown Cell #"@
        + decimal(cells.len() + 1) + ":\n"@ + match json_get(cell, "source"@) {
        Some(src) => (if source_text(src).len() > 0 && source_text(src).last() == '\n' {
            source_text(src)
        } else {
            source_text(src).push('\n')
        }).push('\n'),
        None => Seq::empty(),
    });
}

/// Each shown code cell adds one numbered block: the section of no cells is
/// empty, and the section of one more cell is the section before followed
/// by `Code Cell #n:` (n counting from 1), the cell's source in a python
/// fence, and its outputs where they are asked for.
pub proof fn law_code_section_grows(cells: Seq<JsonValue>, cell: JsonValue, with_outputs: bool)
    ensures
        code_section(Seq::empty(), with_outputs) == Seq::<char>::empty(),
        code_section(cells.push(cell), with_outputs) == code_section(cells, with_outputs)
            + "Code Cell #"@ + decimal(cells.len() + 1) + ":\n"@ + match json_get(cell, "source"@) {
            Some(src) => "```python\n"@ + (if source_text(src).len() > 0 && source_text(src).last()
                == '\n' {
                source_text(src)
            } else {
                source_text(src).push('\n')
            }) + "```\n\n"@,
            None => Seq::empty(),
        } + if with_outputs {
            cell_outputs_text(cell)
        } else {
            Seq::empty()
        },
{
    assert(cells.push(cell).drop_last() =~= cells);
    assert(code_section(cells.push(cell), with_outputs) =~= code_section(cells, with_outputs)
        + "Code Cell #"@ + decimal(cells.len() + 1) + ":\n"@ + match json_get(cell, "source"@) {
        Some(src) => "```python\n"@ + (if source_text(src).len() > 0 && source_text(src).last()
            == '\n' {
            source_text(src)
        } else {
            source_text(src).push('\n')
        }) + "```\n\n"@,
        None => Seq::empty(),
    } + if with_outputs {
        cell_outputs_text(cell)
    } else {
        Seq::empty()
    });
}

/// Where processing succeeds, processing with a fallback gives the same
/// text under the same configuration; where it fails, the fallback is the
/// file's raw text.
pub proof fn law_fallback_agrees_with_process(config: IpynbProcessorConfig, content: Seq<u8>)
    ensures
        notebook_file_summary(config, content) matches Ok(t) ==> summary_or_text(config, content)
            == t,
        notebook_file_summary(config, content) is Err ==> summary_or_text(config, content)
            == utf8_lossy(content),
{
}

} // verus!
