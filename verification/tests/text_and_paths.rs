use zynsearch::analyzer::TextAnalyzer;
use zynsearch::crawler::{ext_allowed, DirectoryCrawler};
use zynsearch::parser::{DocumentParser, MarkdownParser, PlainTextParser};
use zynsearch::paths::to_ascii_lower;
use zynsearch::query_pipeline::{build_shard_counts_by_doc_id, display_filename};
use zynsearch::segment::Segment;
use zynsearch::text::{parse_bool, parse_unsigned, same_text, trim_chars, with_decimal};

#[test]
fn analysis_lowercases_drops_stop_words_and_stems() {
    let analyzer = TextAnalyzer::new();
    assert_eq!(analyzer.analyze("The Running dogs, and CATS!"), vec!["run", "dog", "cat"]);
    assert!(analyzer.analyze("the and of").is_empty());
    assert!(analyzer.analyze("").is_empty());
}

#[test]
fn analysis_skips_tokens_shorter_than_two_characters() {
    let analyzer = TextAnalyzer::new();
    assert_eq!(analyzer.analyze("x dogs 7 q9"), vec!["dog", "q9"]);
    assert!(analyzer.analyze("a b c").is_empty());
}

#[test]
fn sources_are_shown_relative() {
    assert_eq!(display_filename(None), "");
    assert_eq!(display_filename(Some("file.txt")), "./file.txt");
    assert_eq!(display_filename(Some("./file.txt")), "./file.txt");
    assert_eq!(display_filename(Some("./docs/a.md")), "docs/a.md");
    assert_eq!(display_filename(Some("././docs/sub/a.md")), "docs/sub/a.md");
    assert_eq!(display_filename(Some("/abs/path/b.txt")), "/abs/path/b.txt");
    assert_eq!(display_filename(Some("/")), "");
    assert_eq!(display_filename(Some("s3://bucket/doc-1.txt")), "s3://bucket/doc-1.txt");
}

#[test]
fn documents_spread_over_partitions_by_remainder() {
    let counts = build_shard_counts_by_doc_id(&[0, 1, 2, 3, 4, 7], 3);
    assert_eq!(counts.len(), 3);
    assert_eq!(counts[&0], 2);
    assert_eq!(counts[&1], 3);
    assert_eq!(counts[&2], 1);
    let single = build_shard_counts_by_doc_id(&[5, 9], 0);
    assert_eq!(single.len(), 1);
    assert_eq!(single[&0], 2);
    assert!(build_shard_counts_by_doc_id(&[], 4).is_empty());
}

#[test]
fn segments_list_each_word_occurrence() {
    let data = vec![(10, "The fast fox".to_string()), (20, "The lazy dog the".to_string())];
    let segment = Segment::build(&data);
    assert_eq!(segment.total_docs, 2);
    assert_eq!(segment.lookup(&"the".to_string()), Some(vec![10, 20, 20]));
    assert_eq!(segment.lookup(&"fox".to_string()), Some(vec![10]));
    assert_eq!(segment.lookup(&"The".to_string()), None);
}

#[test]
fn markdown_keeps_the_prose() {
    let md = "# Title\n\n```\ncode\n```\n  **bold** text  \n***x**";
    assert_eq!(MarkdownParser.parse(md), "# Title code _bold_ text _*x_ ");
    assert_eq!(PlainTextParser.parse("  as is\n"), "  as is\n");
}

#[test]
fn crawls_pick_allowed_extensions() {
    let allowed = vec!["txt".to_string(), "md".to_string()];
    assert!(ext_allowed(Some("md"), &allowed));
    assert!(!ext_allowed(Some("MD"), &allowed));
    assert!(!ext_allowed(None, &allowed));
    let crawler = DirectoryCrawler::new("./corpus", allowed);
    assert_eq!(crawler.root_path(), "./corpus");
    assert!(crawler.accepts(Some("txt")));
    assert!(!crawler.accepts(Some("pdf")));
}

#[test]
fn text_helpers_read_numbers_and_trim() {
    let chars = |s: &str| s.chars().collect::<Vec<char>>();
    assert_eq!(parse_unsigned(&chars("+42"), 100), Some(42));
    assert_eq!(parse_unsigned(&chars("101"), 100), None);
    assert_eq!(parse_unsigned(&chars("18446744073709551615"), u64::MAX), Some(u64::MAX));
    assert_eq!(parse_unsigned(&chars("18446744073709551616"), u64::MAX), None);
    assert_eq!(parse_unsigned(&chars("-1"), 100), None);
    assert_eq!(parse_unsigned(&chars("+"), 100), None);
    assert_eq!(parse_unsigned(&chars(""), 100), None);
    assert_eq!(parse_unsigned(&chars("007"), 100), Some(7));
    assert_eq!(parse_bool("true"), Some(true));
    assert_eq!(parse_bool("false"), Some(false));
    assert_eq!(parse_bool("True"), None);
    assert_eq!(trim_chars(&chars("\t a b \r\n")), chars("a b"));
    assert!(same_text("abc", "abc"));
    assert!(!same_text("abc", "abd"));
    assert_eq!(with_decimal("n", 0), "n0");
    assert_eq!(with_decimal("n", 1203), "n1203");
    assert_eq!(to_ascii_lower("PDF é Ä"), "pdf é Ä");
}
