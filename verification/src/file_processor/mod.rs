//! File processors: turning the raw bytes of a file into a compact text for
//! a prompt, chosen by the file's extension. Where a format allows it, the
//! processor extracts the structure instead of the raw data (for a Jupyter
//! notebook: the cell counts and a sample of its code cells).
pub mod default;
pub mod ipynb;
pub mod json;
pub mod text;

pub use default::DefaultTextProcessor;
pub use ipynb::JupyterNotebookProcessor;

use vstd::prelude::*;

verus! {

/// Configuration for the Jupyter notebook (`.ipynb`) file processor.
#[derive(Debug, Clone, Copy, PartialEq, Eq, Structural)]
pub struct IpynbProcessorConfig {
    /// Maximum number of code cells to include in the processed output.
    ///
    /// Default: `3`
    pub max_code_cells: usize,
    /// When true, include cell outputs (stdout / text/plain / errors) after each code cell.
    ///
    /// Default: `false`
    pub include_outputs: bool,
    /// When true, include markdown cells in the processed output.
    ///
    /// Default: `false`
    pub include_markdown: bool,
}

/// The default notebook configuration: three code cells, no outputs, no
/// markdown cells.
pub open spec fn default_ipynb_config() -> IpynbProcessorConfig {
    IpynbProcessorConfig { max_code_cells: 3, include_outputs: false, include_markdown: false }
}

impl Default for IpynbProcessorConfig {
    fn default() -> (res: Self)
        ensures
            res == default_ipynb_config(),
    {
        IpynbProcessorConfig { max_code_cells: 3, include_outputs: false, include_markdown: false }
    }
}

/// Configuration for all file processors.
#[derive(Debug, Clone, Copy, PartialEq, Eq, Structural)]
pub struct FileProcessorsConfig {
    /// Jupyter notebook processor settings.
    pub ipynb: IpynbProcessorConfig,
}

impl Default for FileProcessorsConfig {
    fn default() -> (res: Self)
        ensures
            res.ipynb == default_ipynb_config(),
    {
        FileProcessorsConfig { ipynb: IpynbProcessorConfig::default() }
    }
}

/// Why a processor could not turn a file into text.
#[derive(Debug, Clone, PartialEq, Eq)]
pub enum ProcessError {
    /// The notebook file is not a JSON document; `cause` is the JSON
    /// parser's own report of what it met and where.
    InvalidNotebookJson { cause: String },
    /// The notebook document has no `cells` array.
    MissingCells,
}

/// The value of a [`ProcessError`].
pub enum ProcessErrorValue {
    InvalidNotebookJson(Seq<char>),
    MissingCells,
}

impl View for ProcessError {
    type V = ProcessErrorValue;

    open spec fn view(&self) -> ProcessErrorValue {
        match self {
            ProcessError::InvalidNotebookJson { cause } => ProcessErrorValue::InvalidNotebookJson(cause@),
            ProcessError::MissingCells => ProcessErrorValue::MissingCells,
        }
    }
}

impl ProcessError {
    /// The message that describes the error (the context in which the cause,
    /// if any, arose).
    pub fn message(&self) -> (res: &'static str)
        ensures
            self@ is InvalidNotebookJson ==> res@ == "Failed to parse .ipynb file as JSON"@,
            self@ is MissingCells ==> res@ == "Notebook has no 'cells' array"@,
    {
        match self {
            ProcessError::InvalidNotebookJson { .. } => "Failed to parse .ipynb file as JSON",
            ProcessError::MissingCells => "Notebook has no 'cells' array",
        }
    }
}

/// The text of a processing result, or the value of its error.
pub open spec fn result_text(r: Result<String, ProcessError>) -> Result<Seq<char>, ProcessErrorValue> {
    match r {
        Ok(s) => Ok(s@),
        Err(e) => Err(e@),
    }
}

/// Processing file contents into text suited to a language-model prompt.
///
/// Each processor takes the raw bytes of a file and produces a text for a
/// prompt. Processors may extract schemas, truncate content, or apply other
/// transformations to reduce token usage while keeping what the content means.
pub trait FileProcessor: Send + Sync {
    /// Processes file content (`content`, the raw bytes of the file) into a
    /// text.
    fn process(&self, content: &[u8]) -> Result<String, ProcessError>;
}


/// Which processor an extension selects.
#[derive(Debug, Clone, Copy, PartialEq, Eq, Structural)]
pub enum ProcessorKind {
    Csv,
    Tsv,
    JsonLines,
    JupyterNotebook,
    DefaultText,
}

/// The processor for an extension that is already in lower case.
pub open spec fn processor_kind_for(lower: Seq<char>) -> ProcessorKind {
    if lower == "csv"@ {
        ProcessorKind::Csv
    } else if lower == "tsv"@ {
        ProcessorKind::Tsv
    } else if lower == "jsonl"@ || lower == "ndjson"@ {
        ProcessorKind::JsonLines
    } else if lower == "ipynb"@ {
        ProcessorKind::JupyterNotebook
    } else {
        ProcessorKind::DefaultText
    }
}

/// A processor chosen for a file extension.
pub enum SelectedProcessor {
    /// The choice of the comma-separated-values processor (`.csv`); the
    /// variant only names the choice and processes nothing.
    Csv,
    /// The choice of the tab-separated-values processor (`.tsv`); the
    /// variant only names the choice and processes nothing.
    Tsv,
    /// The choice of the JSON-lines processor (`.jsonl`, `.ndjson`); the
    /// variant only names the choice and processes nothing.
    JsonLines,
    /// A Jupyter notebook processor with its configuration.
    JupyterNotebook(JupyterNotebookProcessor),
    /// The raw text of the file.
    DefaultText(DefaultTextProcessor),
}

impl SelectedProcessor {
    /// Which processor this is.
    pub open spec fn kind(&self) -> ProcessorKind {
        match self {
            SelectedProcessor::Csv => ProcessorKind::Csv,
            SelectedProcessor::Tsv => ProcessorKind::Tsv,
            SelectedProcessor::JsonLines => ProcessorKind::JsonLines,
            SelectedProcessor::JupyterNotebook(_) => ProcessorKind::JupyterNotebook,
            SelectedProcessor::DefaultText(_) => ProcessorKind::DefaultText,
        }
    }

    /// Which processor this is.
    pub fn processor_kind(&self) -> (res: ProcessorKind)
        ensures
            res == self.kind(),
    {
        match self {
            SelectedProcessor::Csv => ProcessorKind::Csv,
            SelectedProcessor::Tsv => ProcessorKind::Tsv,
            SelectedProcessor::JsonLines => ProcessorKind::JsonLines,
            SelectedProcessor::JupyterNotebook(_) => ProcessorKind::JupyterNotebook,
            SelectedProcessor::DefaultText(_) => ProcessorKind::DefaultText,
        }
    }
}

/// What `str::to_lowercase` gives for a text: its lower-case equivalent
/// under Unicode's `Lowercase` property.
pub uninterp spec fn unicode_lowercase(s: Seq<char>) -> Seq<char>;

/// Calls `str::to_lowercase`.
///
/// Trusted: the result is the lower-case text named [`unicode_lowercase`]
/// of the argument; nothing more of the Unicode mapping is stated.
#[verifier::external_body]
fn to_lowercase(s: &str) -> (res: String)
    ensures
        res@ == unicode_lowercase(s@),
{
    s.to_lowercase()
}

/// Whether two texts are equal.
fn same_text(a: &str, b: &str) -> (res: bool)
    ensures
        res == (a@ == b@),
{
    String::from_str(a) == String::from_str(b)
}

/// The processor for an extension that is already in lower case: `csv`,
/// `tsv`, `jsonl` / `ndjson` and `ipynb` have their own processors (the
/// notebook one configured by `processors.ipynb`); any other extension gets
/// the raw-text processor.
pub fn processor_for_lowercase_extension(lower: &str, processors: &FileProcessorsConfig) -> (res:
    SelectedProcessor)
    ensures
        res.kind() == processor_kind_for(lower@),
        res matches SelectedProcessor::JupyterNotebook(p) ==> p.config() == processors.ipynb,
{
    if same_text(lower, "csv") {
        SelectedProcessor::Csv
    } else if same_text(lower, "tsv") {
        SelectedProcessor::Tsv
    } else if same_text(lower, "jsonl") || same_text(lower, "ndjson") {
        SelectedProcessor::JsonLines
    } else if same_text(lower, "ipynb") {
        SelectedProcessor::JupyterNotebook(JupyterNotebookProcessor::new(processors.ipynb))
    } else {
        SelectedProcessor::DefaultText(DefaultTextProcessor)
    }
}

/// The processor for a file extension (without the dot), compared without
/// regard to case.
pub fn get_processor_for_extension(extension: &str, processors: &FileProcessorsConfig) -> (res:
    SelectedProcessor)
    ensures
        res.kind() == processor_kind_for(unicode_lowercase(extension@)),
        res matches SelectedProcessor::JupyterNotebook(p) ==> p.config() == processors.ipynb,
{
    let lower = to_lowercase(extension);
    processor_for_lowercase_extension(lower.as_str(), processors)
}

/// Which processor each lower-case extension selects: `csv`, `tsv`, `jsonl`
/// and `ndjson`, `ipynb` their own; every other extension the raw-text one.
pub proof fn law_processor_choice(lower: Seq<char>)
    ensures
        lower == "csv"@ ==> processor_kind_for(lower) == ProcessorKind::Csv,
        lower == "tsv"@ ==> processor_kind_for(lower) == ProcessorKind::Tsv,
        lower == "jsonl"@ || lower == "ndjson"@ ==> processor_kind_for(lower)
            == ProcessorKind::JsonLines,
        lower == "ipynb"@ ==> processor_kind_for(lower) == ProcessorKind::JupyterNotebook,
        lower != "csv"@ && lower != "tsv"@ && lower != "jsonl"@ && lower != "ndjson"@ && lower
            != "ipynb"@ ==> processor_kind_for(lower) == ProcessorKind::DefaultText,
        processor_kind_for(lower) == ProcessorKind::JupyterNotebook ==> lower == "ipynb"@,
{
    reveal_strlit("csv");
    reveal_strlit("tsv");
    reveal_strlit("jsonl");
    reveal_strlit("ndjson");
    reveal_strlit("ipynb");
    assert("csv"@.len() == 3 && "tsv"@.len() == 3 && "jsonl"@.len() == 5 && "ndjson"@.len() == 6
        && "ipynb"@.len() == 5);
    assert("csv"@ != "tsv"@) by {
        assert("csv"@[0] != "tsv"@[0]);
    }
    assert("jsonl"@ != "ipynb"@) by {
        assert("jsonl"@[0] != "ipynb"@[0]);
    }
}

/// Extensions that agree once in lower case select the same processor.
pub proof fn law_extension_case_insensitive(a: Seq<char>, b: Seq<char>)
    requires
        unicode_lowercase(a) == unicode_lowercase(b),
    ensures
        processor_kind_for(unicode_lowercase(a)) == processor_kind_for(unicode_lowercase(b)),
{
}

} // verus!
