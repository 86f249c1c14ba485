use accepted::buffer::Buffer;
use accepted::config::{
    Command, Config, ConfigWithDefault, HardTab, IndentWidth, LanguageConfig, LanguageConfigToml,
};
use accepted::edit_core::buffer::RopeyCoreBuffer;
use accepted::snippets::{compare_keys, KeyOrder, SnippetMap};

fn snippets(pairs: &[(&str, &str)]) -> SnippetMap {
    let mut m = SnippetMap::new();
    for (k, v) in pairs {
        m.insert(k.to_string(), v.to_string());
    }
    m
}

fn keys(m: &SnippetMap) -> Vec<String> {
    m.entries.iter().map(|(k, _)| k.clone()).collect()
}

fn words(ws: &[&str]) -> Vec<String> {
    ws.iter().map(|w| w.to_string()).collect()
}

#[test]
fn snippet_keys_are_kept_in_order() {
    let m = snippets(&[("for", "a"), ("if", "b"), ("fn", "c"), ("f", "d")]);
    assert_eq!(keys(&m), vec!["f", "fn", "for", "if"]);
    assert_eq!(m.get("fn"), Some(&"c".to_string()));
    assert_eq!(m.get("while"), None);
}

#[test]
fn snippet_insert_replaces_the_text() {
    let mut m = snippets(&[("fn", "old")]);
    m.insert("fn".to_string(), "new".to_string());
    assert_eq!(m.entries.len(), 1);
    assert_eq!(m.get("fn"), Some(&"new".to_string()));
}

#[test]
fn snippet_append_overrides() {
    let mut a = snippets(&[("fn", "a-fn"), ("if", "a-if")]);
    let b = snippets(&[("fn", "b-fn"), ("loop", "b-loop")]);
    a.append(&b);
    assert_eq!(keys(&a), vec!["fn", "if", "loop"]);
    assert_eq!(a.get("fn"), Some(&"b-fn".to_string()));
    assert_eq!(a.get("if"), Some(&"a-if".to_string()));
}

#[test]
fn snippet_keys_with_prefix() {
    let m = snippets(&[("for", "a"), ("if", "b"), ("fn", "c"), ("format", "d")]);
    let found = m.keys_with_prefix(&"fo".chars().collect());
    assert_eq!(found, vec!["for", "format"]);
    assert_eq!(m.keys_with_prefix(&"x".chars().collect()).len(), 0);
}

#[test]
fn key_order_is_char_order() {
    assert_eq!(compare_keys("ab", "abc"), KeyOrder::Less);
    assert_eq!(compare_keys("b", "abc"), KeyOrder::Greater);
    assert_eq!(compare_keys("abc", "abc"), KeyOrder::Equal);
    assert_eq!(compare_keys("Z", "a"), KeyOrder::Less);
}

#[test]
fn command_from_words() {
    assert!(Command::new(&[]).is_none());
    let c = Command::new(&words(&["rustfmt", "--edition", "2018"])).unwrap();
    assert_eq!(c.program, "rustfmt");
    assert_eq!(c.args, words(&["--edition", "2018"]));
    assert_eq!(c.to_line(), "rustfmt --edition 2018");
    let c = Command::new(&words(&["rls"])).unwrap();
    assert_eq!(c.to_line(), "rls");
}

fn language(indent: Option<usize>, snips: &[(&str, &str)]) -> LanguageConfig {
    let mut c = LanguageConfig::default();
    c.indent_width = indent;
    c.snippets = Some(snippets(snips));
    c
}

#[test]
fn settings_from_a_file() {
    let toml = LanguageConfigToml {
        ansi_color: Some(true),
        snippets: Some(words(&["a.json", "b.json"])),
        indent_width: Some(2),
        lsp: Some(words(&["clangd", "--log=error"])),
        formatter: Some(Vec::new()),
        syntax: Some("cpp".to_string()),
        compiler: None,
    };
    let files = vec![snippets(&[("fn", "1"), ("if", "1")]), snippets(&[("fn", "2")])];
    let c = toml.into_config(files);
    assert_eq!(c.ansi_color, Some(true));
    assert_eq!(c.indent_width, Some(2));
    assert_eq!(c.lsp.as_ref().unwrap().to_line(), "clangd --log=error");
    assert!(c.formatter.is_none());
    assert_eq!(c.syntax_extension, Some("cpp".to_string()));
    let s = c.snippets.unwrap();
    assert_eq!(s.get("fn"), Some(&"2".to_string()));
    assert_eq!(s.get("if"), Some(&"1".to_string()));
    assert!(c.hard_tab.is_none());
}

fn sample_config() -> Config {
    Config {
        file: vec![
            ("rs".to_string(), language(Some(2), &[("fn", "ext")])),
            ("mk".to_string(), language(Some(3), &[])),
        ],
        file_name: vec![("Makefile".to_string(), language(None, &[("all", "name"), ("fn", "name")]))],
        file_default: Some(language(Some(8), &[("if", "default")])),
    }
}

#[test]
fn setting_lookup_by_name_then_extension_then_default() {
    let c = sample_config();
    assert_eq!(c.get::<IndentWidth>(Some("src/main.rs")), Some(&2));
    assert_eq!(c.get::<IndentWidth>(Some("x/Makefile")), Some(&8));
    assert_eq!(c.get::<IndentWidth>(Some("notes.txt")), Some(&8));
    assert_eq!(c.get::<IndentWidth>(Some(".rs")), Some(&8));
    assert_eq!(c.get::<IndentWidth>(None), Some(&8));
    assert_eq!(c.get::<HardTab>(Some("src/main.rs")), None);
}

#[test]
fn snippets_of_default_win_over_extension_and_name() {
    let c = sample_config();
    let s = c.snippets(Some("src/main.rs"));
    assert_eq!(s.get("fn"), Some(&"ext".to_string()));
    assert_eq!(s.get("if"), Some(&"default".to_string()));
    let s = c.snippets(Some("Makefile"));
    assert_eq!(s.get("all"), Some(&"name".to_string()));
    assert_eq!(s.get("fn"), Some(&"name".to_string()));
    let s = c.snippets(None);
    assert_eq!(s.get("fn"), None);
    assert_eq!(s.get("if"), Some(&"default".to_string()));
}

#[test]
fn user_settings_before_built_in_ones() {
    let mut both = ConfigWithDefault::default();
    both.default = sample_config();
    assert_eq!(both.get::<IndentWidth>(Some("a.rs")), Some(&2));
    both.set::<IndentWidth>(5);
    assert_eq!(both.get::<IndentWidth>(Some("a.rs")), Some(&5));
    assert_eq!(both.get::<IndentWidth>(None), Some(&5));
}

#[test]
fn buffer_takes_its_settings() {
    let mut config = ConfigWithDefault::default();
    config.config = sample_config();
    let mut buf: Buffer<RopeyCoreBuffer> = Buffer::with_config(&config);
    assert_eq!(buf.indent_width(), 8);
    assert!(!buf.hard_tab());
    buf.set_path(Some("lib.rs".to_string()));
    buf.set_language(&config);
    assert_eq!(buf.indent_width(), 2);
    assert_eq!(buf.snippet.get("fn"), Some(&"ext".to_string()));
    let empty = ConfigWithDefault::default();
    let buf: Buffer<RopeyCoreBuffer> = Buffer::with_config(&empty);
    assert_eq!(buf.indent_width(), 4);
}

#[test]
fn syntax_extension_choice() {
    let mut config = ConfigWithDefault::default();
    let mut buf: Buffer<RopeyCoreBuffer> = Buffer::new(4, false);
    assert_eq!(buf.syntax_extension(&config), "");
    buf.set_path(Some("src/main.rs".to_string()));
    assert_eq!(buf.syntax_extension(&config), "rs");
    buf.set_path(Some("Makefile".to_string()));
    assert_eq!(buf.syntax_extension(&config), "Makefile");
    config.set::<accepted::config::SyntaxExtension>("make".to_string());
    assert_eq!(buf.syntax_extension(&config), "make");
}

#[test]
fn snippet_files_end_each_body_line_with_a_break() {
    let entries = vec![
        ("fn".to_string(), vec!["fn $1() {".to_string(), "}".to_string()]),
        ("if".to_string(), vec!["if x".to_string()]),
        ("fn".to_string(), vec!["fn main() {}".to_string()]),
    ];
    let m = accepted::snippets::snippet_map_from(entries);
    assert_eq!(m.get("fn").map(|s| s.as_str()), Some("fn main() {}\n"));
    assert_eq!(m.get("if").map(|s| s.as_str()), Some("if x\n"));
    assert_eq!(m.get("while"), None);
}
