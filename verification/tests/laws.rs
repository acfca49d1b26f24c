use code2prompt_core::file_processor::{
    get_processor_for_extension, FileProcessor, FileProcessorsConfig, IpynbProcessorConfig,
    JupyterNotebookProcessor,
};

const NOTEBOOK: &str = r##"{"cells":[
 {"cell_type":"markdown","source":"# Notes"},
 {"cell_type":"code","source":"a = 1"},
 {"cell_type":"raw","source":"r"},
 {"cell_type":"code","source":"b = 2"},
 {"cell_type":"unknown-kind","source":"u"},
 {"source":"no type"}
]}"##;

fn summary(max: usize, outputs: bool, markdown: bool) -> String {
    JupyterNotebookProcessor::new(IpynbProcessorConfig {
        max_code_cells: max,
        include_outputs: outputs,
        include_markdown: markdown,
    })
    .process(NOTEBOOK.as_bytes())
    .unwrap()
}

#[test]
fn law_cell_counts_bounded_on_a_notebook() {
    let out = summary(3, false, false);
    assert!(out.contains("Total cells: 6 (2 code, 1 markdown, 1 raw)"));
}

#[test]
fn law_cap_beyond_code_count_on_a_notebook() {
    assert_eq!(summary(2, false, false), summary(100, false, false));
    assert_ne!(summary(1, false, false), summary(2, false, false));
}

#[test]
fn law_code_cells_accounted_on_a_notebook() {
    let out = summary(1, false, false);
    assert_eq!(out.matches("Code Cell #").count(), 1);
    assert!(out.ends_with("... [1 more code cells omitted]\n"));
}

#[test]
fn law_markdown_blocks_follow_header_on_a_notebook() {
    let with_md = summary(3, false, true);
    let without_md = summary(3, false, false);
    let header = "Jupyter Notebook Summary:\nTotal cells: 6 (2 code, 1 markdown, 1 raw)\n\n";
    assert!(without_md.starts_with(header));
    let expected = format!("{}Markdown Cell #1:\n# Notes\n\n{}", header, &without_md[header.len()..]);
    assert_eq!(with_md, expected);
}

#[test]
fn law_summary_starts_with_title_on_notebooks() {
    for cfg in [(0, false, false), (3, true, true), (9, true, false)] {
        assert!(summary(cfg.0, cfg.1, cfg.2).starts_with("Jupyter Notebook Summary:\n"));
    }
}

#[test]
fn law_extension_case_insensitive_on_extensions() {
    let processors = FileProcessorsConfig::default();
    for (a, b) in [("csv", "CsV"), ("ipynb", "IPYNB"), ("ndjson", "NdJson"), ("md", "MD")] {
        assert_eq!(
            get_processor_for_extension(a, &processors).processor_kind(),
            get_processor_for_extension(b, &processors).processor_kind()
        );
    }
}

#[test]
fn law_outputs_follow_code_block_on_a_notebook() {
    let nb = r#"{"cells":[{"cell_type":"code","source":"a","outputs":[{"output_type":"stream","text":"x"}]},{"cell_type":"code","source":"b"}]}"#;
    let run = |outputs: bool| {
        JupyterNotebookProcessor::new(IpynbProcessorConfig { max_code_cells: 3, include_outputs: outputs, include_markdown: false })
            .process(nb.as_bytes())
            .unwrap()
    };
    let block1 = "Code Cell #1:\n```python\na\n```\n\n";
    let block2 = "Code Cell #2:\n```python\nb\n```\n\n";
    let header = "Jupyter Notebook Summary:\nTotal cells: 2 (2 code, 0 markdown, 0 raw)\n\n";
    assert_eq!(run(false), format!("{}{}{}", header, block1, block2));
    assert_eq!(run(true), format!("{}{}Output:\nx\n\n{}", header, block1, block2));
}

#[test]
fn law_joined_strings_concat_on_sources() {
    let run = |source: &str| {
        let nb = format!(r#"{{"cells":[{{"cell_type":"code","source":{}}}]}}"#, source);
        JupyterNotebookProcessor::default().process(nb.as_bytes()).unwrap()
    };
    assert_eq!(run(r#"["ab", 1, "cd\n", "ef"]"#), run(r#""abcd\nef""#));
    assert_eq!(run("[]"), run(r#""""#));
}

#[test]
fn law_smaller_cap_gives_prefix_on_a_notebook() {
    let nb = r#"{"cells":[{"cell_type":"code","source":"a"},{"cell_type":"code","source":"b"},{"cell_type":"code","source":"c"}]}"#;
    let run = |max: usize| {
        JupyterNotebookProcessor::new(IpynbProcessorConfig { max_code_cells: max, include_outputs: false, include_markdown: false })
            .process(nb.as_bytes())
            .unwrap()
    };
    let one = run(1);
    let two = run(2);
    let blocks_one = &one[..one.find("... [").unwrap()];
    assert!(two.starts_with(blocks_one));
    assert!(run(3).starts_with(&two[..two.find("... [").unwrap()]));
}

#[test]
fn law_outputs_ignored_without_include_outputs_on_notebooks() {
    let a = r#"{"cells":[{"cell_type":"code","source":"a","outputs":[{"output_type":"stream","text":"x"}]}]}"#;
    let b = r#"{"cells":[{"cell_type":"code","source":"a","outputs":[],"execution_count":3}]}"#;
    let p = JupyterNotebookProcessor::default();
    assert_eq!(p.process(a.as_bytes()), p.process(b.as_bytes()));
}

#[test]
fn law_markdown_ignored_without_include_markdown_on_notebooks() {
    let a = r#"{"cells":[{"cell_type":"markdown","source":"one"},{"cell_type":"code","source":"c"}]}"#;
    let b = r#"{"cells":[{"cell_type":"markdown","source":["two", "three"]},{"cell_type":"code","source":"c"}]}"#;
    let p = JupyterNotebookProcessor::default();
    assert_eq!(p.process(a.as_bytes()), p.process(b.as_bytes()));
    let shown = JupyterNotebookProcessor::new(IpynbProcessorConfig { max_code_cells: 3, include_outputs: false, include_markdown: true });
    assert_ne!(shown.process(a.as_bytes()), shown.process(b.as_bytes()));
}
