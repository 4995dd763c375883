use mew::system::Overflow;
use mew::telemetry::{
    counted_language, extension_to_lang, language_from_names, lcov_totals, tarpaulin_figure,
    LineTally, MAX_COUNT_BYTES,
};

#[test]
fn extensions_map_to_languages() {
    let cases = [
        ("rs", "rust"), ("py", "python"), ("go", "go"), ("h", "c"), ("hpp", "c++"),
        ("cjs", "javascript"), ("mts", "typescript"), ("jsx", "react"), ("htm", "html"),
        ("less", "css"), ("zsh", "shell"), ("lua", "lua"), ("zig", "zig"), ("yml", "config"),
        ("markdown", "markdown"), ("java", "java"), ("kts", "kotlin"), ("swift", "swift"),
        ("rb", "ruby"), ("php", "php"), ("png", "other"), ("", "other"), ("RS", "other"),
    ];
    for (ext, lang) in cases {
        assert_eq!(extension_to_lang(ext), lang, "{}", ext);
    }
}

#[test]
fn counted_files() {
    assert_eq!(counted_language("rs", Some(10)), Some("rust"));
    assert_eq!(counted_language("rs", Some(MAX_COUNT_BYTES)), Some("rust"));
    assert_eq!(counted_language("rs", Some(MAX_COUNT_BYTES + 1)), None);
    assert_eq!(counted_language("rs", None), None);
    assert_eq!(counted_language("png", Some(1)), None);
    assert_eq!(MAX_COUNT_BYTES, 1024 * 1024);
}

#[test]
fn tally_top_code_language() {
    let mut t = LineTally::new();
    assert_eq!(t.add("rust", 100), Ok(()));
    assert_eq!(t.add("markdown", 500), Ok(()));
    assert_eq!(t.add("python", 100), Ok(()));
    assert_eq!(t.add("rust", 50), Ok(()));
    assert_eq!(t.add("python", 0), Ok(()));
    assert_eq!(t.total_lines(), 750);
    assert_eq!(t.top_language(), Some(("rust".to_string(), 150)));
}

#[test]
fn tally_ties_and_fallback() {
    let mut t = LineTally::new();
    t.add("rust", 100).unwrap();
    t.add("python", 100).unwrap();
    assert_eq!(t.top_language(), Some(("rust".to_string(), 100)));
    let mut t = LineTally::new();
    t.add("markdown", 300).unwrap();
    t.add("config", 300).unwrap();
    t.add("other", 10).unwrap();
    assert_eq!(t.top_language(), Some(("config".to_string(), 300)));
    assert_eq!(LineTally::new().top_language(), None);
}

#[test]
fn tally_overflow_keeps_the_tally() {
    let mut t = LineTally::new();
    t.add("rust", usize::MAX).unwrap();
    assert_eq!(t.add("go", 1), Err(Overflow));
    assert_eq!(t.total_lines(), usize::MAX);
    assert_eq!(t.top_language(), Some(("rust".to_string(), usize::MAX)));
}

#[test]
fn lcov_sums() {
    let report = "TN:\nSF:a.rs\nLF:10\nLH:7\nend_of_record\nSF:b\nLF: 5 \nLH:x\nend_of_record\n";
    assert_eq!(lcov_totals(report), Ok((15, 7)));
    assert_eq!(lcov_totals(""), Ok((0, 0)));
    assert_eq!(lcov_totals("LF:18446744073709551615\nLF:1\n"), Err(Overflow));
}

#[test]
fn tarpaulin_figures() {
    assert_eq!(tarpaulin_figure("{\"files\":[],\"coverage\":83.5,\"x\":1}").as_deref(), Some("83.5"));
    assert_eq!(tarpaulin_figure("{\"coverage\": 83}").as_deref(), Some(""));
    assert_eq!(tarpaulin_figure("{\"covered\":3}"), None);
    assert_eq!(tarpaulin_figure("\"coverage\":1.0 \"coverage\":2.0").as_deref(), Some("1.0"));
}

fn names(v: &[&str]) -> Vec<String> {
    v.iter().map(|s| s.to_string()).collect()
}

#[test]
fn project_languages() {
    assert_eq!(language_from_names(&names(&["cargo.toml", "readme.md"])), Some("rust"));
    assert_eq!(language_from_names(&names(&["package.json", "index.ts"])), Some("typescript"));
    assert_eq!(language_from_names(&names(&["package.json"])), Some("javascript"));
    assert_eq!(language_from_names(&names(&["deno.json", "tsconfig.json"])), Some("typescript"));
    assert_eq!(language_from_names(&names(&["main.go"])), Some("go"));
    assert_eq!(language_from_names(&names(&["foo.c", "makefile"])), Some("c"));
    assert_eq!(language_from_names(&names(&["x.cpp", "makefile"])), Some("c++"));
    assert_eq!(language_from_names(&names(&["a.kt"])), Some("kotlin"));
    assert_eq!(language_from_names(&names(&["run.sh"])), Some("shell"));
    assert_eq!(language_from_names(&names(&["build.zig"])), Some("zig"));
    assert_eq!(language_from_names(&names(&["lib.hs"])), Some("haskell"));
    assert_eq!(language_from_names(&names(&["init.lua"])), Some("lua"));
    assert_eq!(language_from_names(&names(&["requirements.txt"])), Some("python"));
    assert_eq!(language_from_names(&names(&["gemfile"])), Some("ruby"));
    assert_eq!(language_from_names(&names(&["pom.xml", "cargo.lock"])), Some("rust"));
    assert_eq!(language_from_names(&names(&["package.swift"])), Some("swift"));
    assert_eq!(language_from_names(&names(&["composer.json"])), Some("php"));
    assert_eq!(language_from_names(&names(&["readme.md"])), None);
    assert_eq!(language_from_names(&Vec::new()), None);
}
