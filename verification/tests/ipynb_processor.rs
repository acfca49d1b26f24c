use code2prompt_core::file_processor::json::Json;
use code2prompt_core::file_processor::{
    get_processor_for_extension, processor_for_lowercase_extension, DefaultTextProcessor,
    FileProcessor, FileProcessorsConfig, IpynbProcessorConfig, JupyterNotebookProcessor,
    ProcessError, ProcessorKind, SelectedProcessor,
};

const NOTEBOOK: &str = r##"{"cells":[
 {"cell_type":"markdown","source":["# Title\n","Intro"]},
 {"cell_type":"code","source":["import os\n","print(1)"],"outputs":[{"output_type":"stream","name":"stdout","text":["1\n"]}]},
 {"cell_type":"raw","source":"raw text"},
 {"cell_type":"code","source":"x = 2\n","outputs":[{"output_type":"execute_result","data":{"text/plain":["2"]}},{"output_type":"error","ename":"ValueError","evalue":"bad"}]},
 {"cell_type":"code","source":"y = 3","outputs":[]},
 {"cell_type":"code","source":"z = 4"}
]}"##;

fn config(max_code_cells: usize, include_outputs: bool, include_markdown: bool) -> IpynbProcessorConfig {
    IpynbProcessorConfig { max_code_cells, include_outputs, include_markdown }
}

fn process(cfg: IpynbProcessorConfig, text: &str) -> Result<String, ProcessError> {
    JupyterNotebookProcessor::new(cfg).process(text.as_bytes())
}

fn s(text: &str) -> String {
    text.to_string()
}

#[test]
fn default_config_values() {
    let cfg = IpynbProcessorConfig::default();
    assert_eq!(cfg.max_code_cells, 3);
    assert!(!cfg.include_outputs);
    assert!(!cfg.include_markdown);
    assert_eq!(FileProcessorsConfig::default().ipynb, cfg);
}

#[test]
fn default_processor_uses_default_config() {
    let a = JupyterNotebookProcessor::default().process(NOTEBOOK.as_bytes());
    let b = process(IpynbProcessorConfig::default(), NOTEBOOK);
    assert_eq!(a, b);
}

#[test]
fn summary_with_default_config() {
    let out = process(IpynbProcessorConfig::default(), NOTEBOOK).unwrap();
    let expected = "Jupyter Notebook Summary:\n\
Total cells: 6 (4 code, 1 markdown, 1 raw)\n\n\
Code Cell #1:\n```python\nimport os\nprint(1)\n```\n\n\
Code Cell #2:\n```python\nx = 2\n```\n\n\
Code Cell #3:\n```python\ny = 3\n```\n\n\
... [1 more code cells omitted]\n";
    assert_eq!(out, expected);
}

#[test]
fn summary_with_outputs_and_markdown() {
    let out = process(config(10, true, true), NOTEBOOK).unwrap();
    let expected = "Jupyter Notebook Summary:\n\
Total cells: 6 (4 code, 1 markdown, 1 raw)\n\n\
Markdown Cell #1:\n# Title\nIntro\n\n\
Code Cell #1:\n```python\nimport os\nprint(1)\n```\n\nOutput:\n1\n\n\
Code Cell #2:\n```python\nx = 2\n```\n\nOutput:\n2\nValueError: bad\n\n\
Code Cell #3:\n```python\ny = 3\n```\n\n\
Code Cell #4:\n```python\nz = 4\n```\n\n";
    assert_eq!(out, expected);
}

#[test]
fn zero_code_cell_cap_omits_every_code_cell() {
    let out = process(config(0, false, false), NOTEBOOK).unwrap();
    assert_eq!(
        out,
        "Jupyter Notebook Summary:\nTotal cells: 6 (4 code, 1 markdown, 1 raw)\n\n... [4 more code cells omitted]\n"
    );
}

#[test]
fn notebook_without_code_cells() {
    let nb = r#"{"cells":[{"cell_type":"markdown","source":"hi"},{"cell_type":"raw","source":"r"},{"source":"x"}]}"#;
    let out = process(config(3, false, true), nb).unwrap();
    assert_eq!(
        out,
        "Jupyter Notebook Summary:\nTotal cells: 3 (0 code, 1 markdown, 1 raw)\n\nMarkdown Cell #1:\nhi\n\n(No code cells found)\n"
    );
}

#[test]
fn empty_cells_array() {
    let out = process(IpynbProcessorConfig::default(), r#"{"cells": []}"#).unwrap();
    assert_eq!(
        out,
        "Jupyter Notebook Summary:\nTotal cells: 0 (0 code, 0 markdown, 0 raw)\n\n(No code cells found)\n"
    );
}

#[test]
fn invalid_json_is_an_error() {
    let err = process(IpynbProcessorConfig::default(), "{not json").unwrap_err();
    assert_eq!(err.message(), "Failed to parse .ipynb file as JSON");
    match err {
        ProcessError::InvalidNotebookJson { cause } => {
            assert!(cause.contains("line 1 column 2"), "unexpected cause: {}", cause)
        }
        other => panic!("expected a JSON error, got {:?}", other),
    }
    let err = process(IpynbProcessorConfig::default(), "{} trailing").unwrap_err();
    assert!(matches!(err, ProcessError::InvalidNotebookJson { .. }));
}

#[test]
fn missing_cells_is_an_error() {
    let err = process(IpynbProcessorConfig::default(), r#"{"metadata": {}}"#).unwrap_err();
    assert_eq!(err, ProcessError::MissingCells);
    assert_eq!(err.message(), "Notebook has no 'cells' array");
    let err = process(IpynbProcessorConfig::default(), r#"{"cells": {"a": 1}}"#).unwrap_err();
    assert_eq!(err, ProcessError::MissingCells);
    let err = process(IpynbProcessorConfig::default(), r#"[1, 2]"#).unwrap_err();
    assert_eq!(err, ProcessError::MissingCells);
}

#[test]
fn duplicate_keys_keep_the_last_value() {
    let out = process(IpynbProcessorConfig::default(), r#"{"cells": 5, "cells": []}"#).unwrap();
    assert!(out.starts_with("Jupyter Notebook Summary:\nTotal cells: 0 "));
}

#[test]
fn source_forms() {
    let nb = r#"{"cells":[
      {"cell_type":"code","source":["a", 1, null, "b\n"]},
      {"cell_type":"code","source":17},
      {"cell_type":"code"},
      {"cell_type":"code","source":""}
    ]}"#;
    let out = process(config(4, false, false), nb).unwrap();
    assert_eq!(
        out,
        "Jupyter Notebook Summary:\nTotal cells: 4 (4 code, 0 markdown, 0 raw)\n\n\
Code Cell #1:\n```python\nab\n```\n\n\
Code Cell #2:\n```python\n(Unable to extract source)\n```\n\n\
Code Cell #3:\n\
Code Cell #4:\n```python\n\n```\n\n"
    );
}

#[test]
fn output_kinds() {
    let nb = r#"{"cells":[{"cell_type":"code","source":"c","outputs":[
      {"output_type":"stream","text":"plain"},
      {"output_type":"stream"},
      {"output_type":"display_data","data":{"text/plain":"shown\n"}},
      {"output_type":"display_data","data":{"image/png":"xx"}},
      {"output_type":"execute_result"},
      {"output_type":"error"},
      {"output_type":"error","ename":"KeyError"},
      {"output_type":"other","text":"t"},
      {"text":"no type"}
    ]}]}"#;
    let out = process(config(3, true, false), nb).unwrap();
    assert_eq!(
        out,
        "Jupyter Notebook Summary:\nTotal cells: 1 (1 code, 0 markdown, 0 raw)\n\n\
Code Cell #1:\n```python\nc\n```\n\n\
Output:\nplain\nshown\nError: \nKeyError: \n\n"
    );
}

#[test]
fn outputs_hidden_by_default() {
    let nb = r#"{"cells":[{"cell_type":"code","source":"c","outputs":[{"output_type":"stream","text":"x"}]}]}"#;
    let out = process(IpynbProcessorConfig::default(), nb).unwrap();
    assert!(!out.contains("Output:"));
}

#[test]
fn counts_with_several_digits() {
    let mut cells = Vec::new();
    for i in 0..12 {
        cells.push(format!(r#"{{"cell_type":"code","source":"c{}"}}"#, i));
    }
    let nb = format!(r#"{{"cells":[{}]}}"#, cells.join(","));
    let out = process(config(1, false, false), &nb).unwrap();
    assert_eq!(
        out,
        "Jupyter Notebook Summary:\nTotal cells: 12 (12 code, 0 markdown, 0 raw)\n\n\
Code Cell #1:\n```python\nc0\n```\n\n... [11 more code cells omitted]\n"
    );
    let out = process(config(12, false, false), &nb).unwrap();
    assert!(out.contains("Code Cell #10:\n```python\nc9\n```\n\n"));
    assert!(out.ends_with("Code Cell #12:\n```python\nc11\n```\n\n"));
}

#[test]
fn summarize_a_built_document() {
    let cell = Json::Object(vec![
        (s("cell_type"), Json::Str(s("code"))),
        (s("source"), Json::Array(vec![Json::Str(s("x")), Json::Number, Json::Str(s("y"))])),
    ]);
    let nb = Json::Object(vec![(s("metadata"), Json::Null), (s("cells"), Json::Array(vec![cell, Json::Bool(true)]))]);
    let out = JupyterNotebookProcessor::new(IpynbProcessorConfig::default()).summarize(&nb).unwrap();
    assert_eq!(
        out,
        "Jupyter Notebook Summary:\nTotal cells: 2 (1 code, 0 markdown, 0 raw)\n\nCode Cell #1:\n```python\nxy\n```\n\n"
    );
    let none = JupyterNotebookProcessor::default().summarize(&Json::Array(vec![]));
    assert_eq!(none, Err(ProcessError::MissingCells));
}

#[test]
fn fallback_keeps_a_summary() {
    let p = JupyterNotebookProcessor::new(IpynbProcessorConfig::default());
    assert_eq!(p.process_with_fallback(NOTEBOOK.as_bytes()), p.process(NOTEBOOK.as_bytes()));
}

#[test]
fn fallback_gives_raw_text_on_error() {
    let p = JupyterNotebookProcessor::default();
    assert_eq!(p.process_with_fallback(b"not a notebook").unwrap(), "not a notebook");
    assert_eq!(p.process_with_fallback(br#"{"no": "cells"}"#).unwrap(), r#"{"no": "cells"}"#);
    assert_eq!(p.process_with_fallback(b"ab\xffc").unwrap(), "ab\u{FFFD}c");
}

#[test]
fn default_text_processor_reads_utf8() {
    assert_eq!(DefaultTextProcessor.process("héllo".as_bytes()).unwrap(), "héllo");
    assert_eq!(DefaultTextProcessor.process(b"").unwrap(), "");
    assert_eq!(DefaultTextProcessor.process(b"\xc3").unwrap(), "\u{FFFD}");
}

#[test]
fn processor_for_each_extension() {
    let processors = FileProcessorsConfig { ipynb: config(7, true, false) };
    let kind = |ext: &str| get_processor_for_extension(ext, &processors).processor_kind();
    assert_eq!(kind("csv"), ProcessorKind::Csv);
    assert_eq!(kind("CSV"), ProcessorKind::Csv);
    assert_eq!(kind("tsv"), ProcessorKind::Tsv);
    assert_eq!(kind("jsonl"), ProcessorKind::JsonLines);
    assert_eq!(kind("NDJSON"), ProcessorKind::JsonLines);
    assert_eq!(kind("IpYnB"), ProcessorKind::JupyterNotebook);
    assert_eq!(kind("rs"), ProcessorKind::DefaultText);
    assert_eq!(kind(""), ProcessorKind::DefaultText);
    assert_eq!(kind("json"), ProcessorKind::DefaultText);
    assert_eq!(processor_for_lowercase_extension("CSV", &processors).processor_kind(), ProcessorKind::DefaultText);
}

#[test]
fn notebook_processor_gets_the_configuration() {
    let processors = FileProcessorsConfig { ipynb: config(1, false, false) };
    match get_processor_for_extension("ipynb", &processors) {
        SelectedProcessor::JupyterNotebook(p) => {
            let out = p.process(NOTEBOOK.as_bytes()).unwrap();
            assert!(out.ends_with("... [3 more code cells omitted]\n"));
        }
        _ => panic!("expected the notebook processor"),
    }
    match get_processor_for_extension("txt", &processors) {
        SelectedProcessor::DefaultText(p) => assert_eq!(p.process(b"abc").unwrap(), "abc"),
        _ => panic!("expected the text processor"),
    }
}

#[test]
fn fallback_reports_the_error() {
    let p = JupyterNotebookProcessor::default();
    let (text, error) = p.process_or_fallback(b"[1]");
    assert_eq!(text, "[1]");
    assert_eq!(error, Some(ProcessError::MissingCells));
    let (text, error) = p.process_or_fallback(b"{");
    assert_eq!(text, "{");
    assert!(matches!(error, Some(ProcessError::InvalidNotebookJson { .. })));
    let (text, error) = p.process_or_fallback(br#"{"cells":[]}"#);
    assert_eq!(error, None);
    assert_eq!(Ok(text), p.process(br#"{"cells":[]}"#));
}

#[test]
fn error_cause_is_the_parser_report() {
    match process(IpynbProcessorConfig::default(), "[1,]").unwrap_err() {
        ProcessError::InvalidNotebookJson { cause } => {
            assert_eq!(cause, "trailing comma at line 1 column 4")
        }
        other => panic!("expected a JSON error, got {:?}", other),
    }
}

#[test]
fn extract_source_joins_arrays() {
    let a = vec![Json::Str(s("ab")), Json::Null];
    let b = vec![Json::Str(s("c\n")), Json::Str(s("d"))];
    let mut ab = Vec::new();
    ab.push(Json::Str(s("ab")));
    ab.push(Json::Null);
    ab.push(Json::Str(s("c\n")));
    ab.push(Json::Str(s("d")));
    let joined = JupyterNotebookProcessor::extract_source(&Json::Array(ab));
    let left = JupyterNotebookProcessor::extract_source(&Json::Array(a));
    let right = JupyterNotebookProcessor::extract_source(&Json::Array(b));
    assert_eq!(joined, format!("{}{}", left, right));
    assert_eq!(joined, "abc\nd");
    assert_eq!(JupyterNotebookProcessor::extract_source(&Json::Array(vec![])), "");
    assert_eq!(JupyterNotebookProcessor::extract_source(&Json::Bool(true)), "(Unable to extract source)");
}
