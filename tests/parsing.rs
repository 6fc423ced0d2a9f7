use utterbot::commands::{cmd_grammar, lock_grammar, perms_grammar};
use utterbot::dispatch::{route_utterance, Outcome};
use utterbot::grammar::{match_route, ArgKind, GrammarNode, ParseError};
use utterbot::text::{id_text, matches_folded, name_matches, parse_u64, tokenize};

fn toks(words: &[&str]) -> Vec<String> {
    words.iter().map(|w| w.to_string()).collect()
}

#[test]
fn tokenize_splits_on_runs_of_whitespace() {
    assert_eq!(tokenize("  lock   general\tchat \n", false), toks(&["lock", "general", "chat"]));
}

#[test]
fn tokenize_blank_is_empty() {
    assert!(tokenize("", false).is_empty());
    assert!(tokenize(" \t\r\n ", true).is_empty());
}

#[test]
fn tokenize_keeps_quoted_names_together() {
    assert_eq!(
        tokenize("perms add \"Senior Mods\" kick", true),
        toks(&["perms", "add", "Senior Mods", "kick"])
    );
    assert_eq!(
        tokenize("perms add \"Senior Mods\" kick", false),
        toks(&["perms", "add", "\"Senior", "Mods\"", "kick"])
    );
}

#[test]
fn tokenize_unclosed_quote_runs_to_end_and_empty_quotes_vanish() {
    assert_eq!(tokenize("a \"b c", true), toks(&["a", "b c"]));
    assert_eq!(tokenize("a \"\" b", true), toks(&["a", "b"]));
}

#[test]
fn id_text_writes_decimal() {
    assert_eq!(id_text(0), "0");
    assert_eq!(id_text(7), "7");
    assert_eq!(id_text(1234567890123), "1234567890123");
    assert_eq!(id_text(u64::MAX), "18446744073709551615");
}

#[test]
fn parse_u64_reads_digits_only() {
    assert_eq!(parse_u64("42"), Some(42));
    assert_eq!(parse_u64("007"), Some(7));
    assert_eq!(parse_u64("18446744073709551615"), Some(u64::MAX));
    assert_eq!(parse_u64("18446744073709551616"), None);
    assert_eq!(parse_u64(""), None);
    assert_eq!(parse_u64("-1"), None);
    assert_eq!(parse_u64("4x"), None);
}

#[test]
fn substring_search() {
    assert!(matches_folded("general-chat", "general"));
    assert!(matches_folded("abc", ""));
    assert!(!matches_folded("off-topic", "general"));
    assert!(!matches_folded("ab", "abc"));
}

#[test]
fn name_matching_ignores_case() {
    assert!(name_matches("General-Chat", "GENERAL"));
    assert!(name_matches("off-topic", "TOPIC"));
    assert!(!matches_folded("General-Chat", "GENERAL"));
    assert!(!name_matches("off-topic", "general"));
}

#[test]
fn two_tokens_select_two_node_alternative() {
    let g = cmd_grammar();
    let r = match_route(&g, &toks(&["lock", "disable"])).unwrap().unwrap();
    assert_eq!(r.alternative, 1);
    assert_eq!(r.nodes.len(), 2);
    let r3 = match_route(&g, &toks(&["lock", "disable", "general"])).unwrap().unwrap();
    assert_eq!(r3.alternative, 0);
    assert_eq!(r3.nodes.len(), 3);
    let r1 = match_route(&g, &toks(&["lock"])).unwrap().unwrap();
    assert_eq!(r1.alternative, 2);
    let r4 = match_route(&g, &toks(&["lock", "disable", "general", "chat"])).unwrap().unwrap();
    assert_eq!(r4.alternative, 1);
}

#[test]
fn no_alternative_means_usage() {
    let g = cmd_grammar();
    assert!(match_route(&g, &toks(&[])).unwrap().is_none());
    let l = lock_grammar();
    assert!(match_route(&l, &toks(&[])).unwrap().is_none());
    assert!(match_route(&l, &toks(&["a", "b"])).unwrap().is_none());
}

#[test]
fn matching_is_repeatable() {
    let g = perms_grammar();
    let t = toks(&["add", "mods", "kick", "ban"]);
    let a = match_route(&g, &t).unwrap().unwrap();
    let b = match_route(&g, &t).unwrap().unwrap();
    assert_eq!(a.alternative, b.alternative);
    assert_eq!(a.nodes.len(), b.nodes.len());
    assert_eq!(a.alternative, 0);
}

#[test]
fn literals_must_match_and_free_text_takes_the_rest() {
    let g = perms_grammar();
    assert_eq!(match_route(&g, &toks(&["remove", "mods", "kick"])).unwrap().unwrap().alternative, 1);
    assert!(match_route(&g, &toks(&["grant", "mods", "kick"])).unwrap().is_none());
    assert!(match_route(&g, &toks(&["add", "mods"])).unwrap().is_none());
}

#[test]
fn number_placeholder_rejects_bad_token() {
    let g = vec![vec![
        GrammarNode::literal("purge", None),
        GrammarNode::placeholder("<count>", None, ArgKind::Number),
    ]];
    assert_eq!(match_route(&g, &toks(&["purge", "12"])).unwrap().unwrap().alternative, 0);
    assert_eq!(match_route(&g, &toks(&["purge", "twelve"])).unwrap_err(), ParseError { position: 1 });
    assert_eq!(
        match_route(&g, &toks(&["purge", "99999999999999999999"])).unwrap_err(),
        ParseError { position: 1 }
    );
}

#[test]
fn utterance_routes_through_tokenizer() {
    let g = cmd_grammar();
    match route_utterance(&g, "command about  enable", false) {
        Outcome::RouteReady { route, args } => {
            assert_eq!(route.alternative, 1);
            assert_eq!(args, toks(&["command", "about", "enable"]));
        }
        other => panic!("unexpected {:?}", other),
    }
    assert!(matches!(route_utterance(&g, "   ", false), Outcome::UsageRequested));
    assert!(matches!(route_utterance(&g, "command", false), Outcome::UsageRequested));
    let n = vec![vec![GrammarNode::placeholder("<count>", None, ArgKind::Number)]];
    assert!(matches!(
        route_utterance(&n, "purge many", false),
        Outcome::Failed(utterbot::registry::CommandError::Parse(1))
    ));
}
