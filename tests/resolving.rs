use utterbot::pending::{find_object, resolve_reference, Answer, FindsAwaitingAnswer, PendingTable, EXPIRY_MS};
use utterbot::resolve::{
    channel_label, classify, numbered_listing, exact_match, fuzzy_matches, member_fetch_limit, resolve, Candidate, ChannelKind, FindError,
    FindObject, FindType, Lookup,
};
use utterbot::dispatch::{resume, route_command, Outcome};
use utterbot::commands::cmd_grammar;
use utterbot::registry::CommandError;

fn cands(names: &[(u64, &str)]) -> Vec<Candidate> {
    names.iter().map(|(i, n)| Candidate::new(*i, n.to_string())).collect()
}

fn args(words: &[&str]) -> Vec<String> {
    words.iter().map(|w| w.to_string()).collect()
}

#[test]
fn exact_id_wins_over_names() {
    let objs = cands(&[(11, "555"), (555, "general")]);
    match resolve(None, &objs, &"555".to_string(), FindType::Channel) {
        Ok(Lookup::Found(id)) => assert_eq!(id, 555),
        other => panic!("unexpected {:?}", other),
    }
    assert_eq!(exact_match(&objs, &"0555".to_string()), None);
}

#[test]
fn mention_wins() {
    let objs = cands(&[(1, "general")]);
    match resolve(Some(99), &objs, &"general".to_string(), FindType::Channel) {
        Ok(Lookup::Found(id)) => assert_eq!(id, 99),
        other => panic!("unexpected {:?}", other),
    }
}

#[test]
fn fuzzy_substring_gives_two_candidates() {
    let objs = cands(&[(1, "general"), (2, "general-chat"), (3, "off-topic")]);
    let hits = fuzzy_matches(&objs, &"general".to_string());
    assert_eq!(hits.iter().map(|c| c.id).collect::<Vec<_>>(), vec![1, 2]);
    match resolve(None, &objs, &"general".to_string(), FindType::Channel) {
        Ok(Lookup::Ambiguous(v)) => {
            assert_eq!(v.len(), 2);
            assert_eq!(v[0].name, "general");
            assert_eq!(v[1].name, "general-chat");
        }
        other => panic!("unexpected {:?}", other),
    }
}

#[test]
fn single_fuzzy_hit_resolves() {
    let objs = cands(&[(1, "general"), (2, "Off-Topic")]);
    match resolve(None, &objs, &"TOPIC".to_string(), FindType::Channel) {
        Ok(Lookup::Found(id)) => assert_eq!(id, 2),
        other => panic!("unexpected {:?}", other),
    }
}

#[test]
fn no_hit_is_not_found_of_kind() {
    let objs = cands(&[(1, "general")]);
    assert_eq!(
        resolve(None, &objs, &"admins".to_string(), FindType::Role).unwrap_err(),
        FindError::NotFound(FindType::Role)
    );
    assert_eq!(classify(Vec::new(), FindType::User).unwrap_err(), FindError::NotFound(FindType::User));
}

#[test]
fn sixteen_hits_are_too_many() {
    let names: Vec<(u64, String)> = (0..16).map(|i| (100 + i, format!("chan{}", i))).collect();
    let objs: Vec<Candidate> = names.iter().map(|(i, n)| Candidate::new(*i, n.clone())).collect();
    assert_eq!(
        resolve(None, &objs, &"chan".to_string(), FindType::Channel).unwrap_err(),
        FindError::TooManyResults
    );
    let fifteen: Vec<Candidate> = names[..15].iter().map(|(i, n)| Candidate::new(*i, n.clone())).collect();
    assert!(matches!(
        resolve(None, &fifteen, &"chan".to_string(), FindType::Channel),
        Ok(Lookup::Ambiguous(v)) if v.len() == 15
    ));
}

fn open_lookup(table: &mut PendingTable, who: u64, now: i64) {
    let objs = cands(&[(10, "general"), (20, "general-chat"), (30, "general-memes")]);
    let r = resolve_reference(
        table,
        who,
        5,
        now,
        None,
        &objs,
        &args(&["command", "lock", "disable", "general"]),
        3,
        FindType::Channel,
    );
    assert_eq!(r, Ok(None));
}

#[test]
fn reply_two_picks_second_and_clears() {
    let mut table = PendingTable::new();
    open_lookup(&mut table, 7, 1_000);
    assert!(table.has_pending(7, 1_000));
    match table.answer(7, "2", 2_000) {
        Answer::Resumed { args: a, id } => {
            assert_eq!(id, 20);
            assert_eq!(a, args(&["command", "lock", "disable", "20"]));
        }
        other => panic!("unexpected {:?}", other),
    }
    assert!(!table.has_pending(7, 2_000));
}

#[test]
fn reply_five_is_out_of_range_and_keeps_entry() {
    let mut table = PendingTable::new();
    open_lookup(&mut table, 7, 1_000);
    assert!(matches!(table.answer(7, "5", 2_000), Answer::OutOfRange));
    assert!(matches!(table.answer(7, "0", 2_000), Answer::OutOfRange));
    assert!(table.has_pending(7, 2_000));
    assert!(matches!(table.answer(7, "3", 2_000), Answer::Resumed { id: 30, .. }));
}

#[test]
fn non_numeric_reply_is_not_a_selection() {
    let mut table = PendingTable::new();
    open_lookup(&mut table, 7, 1_000);
    assert!(matches!(table.answer(7, "lock", 2_000), Answer::NotASelection));
    assert!(matches!(table.answer(8, "1", 2_000), Answer::NothingPending));
    assert!(table.has_pending(7, 2_000));
}

#[test]
fn second_lookup_replaces_first() {
    let mut table = PendingTable::new();
    open_lookup(&mut table, 7, 1_000);
    let objs = cands(&[(40, "mods"), (50, "moderators")]);
    let r = resolve_reference(&mut table, 7, 6, 1_500, None, &objs, &args(&["perms", "add", "mod", "kick"]), 2, FindType::Role);
    assert_eq!(r, Ok(None));
    match table.answer(7, "2", 2_000) {
        Answer::Resumed { args: a, id } => {
            assert_eq!(id, 50);
            assert_eq!(a, args(&["perms", "add", "50", "kick"]));
        }
        other => panic!("unexpected {:?}", other),
    }
    assert!(matches!(table.answer(7, "1", 2_000), Answer::NothingPending));
}

#[test]
fn other_requesters_are_untouched() {
    let mut table = PendingTable::new();
    open_lookup(&mut table, 7, 1_000);
    open_lookup(&mut table, 8, 1_000);
    assert!(matches!(table.answer(8, "1", 2_000), Answer::Resumed { id: 10, .. }));
    assert!(table.has_pending(7, 2_000));
}

#[test]
fn expired_entry_is_absent() {
    let mut table = PendingTable::new();
    open_lookup(&mut table, 7, 1_000);
    assert!(table.has_pending(7, 1_000 + EXPIRY_MS));
    assert!(!table.has_pending(7, 1_001 + EXPIRY_MS));
    assert!(matches!(table.answer(7, "1", 1_001 + EXPIRY_MS), Answer::NothingPending));
    assert!(!table.has_pending(7, 1_000));
}

#[test]
fn register_replaces_by_requester() {
    let mut table = PendingTable::new();
    table.register(FindsAwaitingAnswer {
        who: 3,
        channel: 1,
        when: 0,
        finds: cands(&[(1, "a"), (2, "b")]),
        args: args(&["x"]),
        replace_index: 0,
    });
    assert!(matches!(table.answer(3, "2", 10), Answer::Resumed { id: 2, .. }));
}

#[test]
fn resume_replays_through_matcher() {
    let mut table = PendingTable::new();
    open_lookup(&mut table, 7, 1_000);
    let g = cmd_grammar();
    let tokens = match resume(&mut table, 7, "1", 1_100) {
        Some(Ok(v)) => v,
        other => panic!("unexpected {:?}", other),
    };
    assert_eq!(tokens, args(&["command", "lock", "disable", "10"]));
    match route_command(&g, tokens) {
        Outcome::RouteReady { route, args: a } => {
            assert_eq!(route.alternative, 0);
            assert_eq!(route.nodes.len(), 3);
            assert_eq!(a[3], "10");
        }
        other => panic!("unexpected {:?}", other),
    }
    open_lookup(&mut table, 7, 1_000);
    assert!(matches!(
        resume(&mut table, 7, "9", 1_100),
        Some(Err(CommandError::SelectionOutOfRange))
    ));
    assert!(resume(&mut table, 7, "hello", 1_100).is_none());
    assert!(resume(&mut table, 8, "1", 1_100).is_none());
}

#[test]
fn find_object_is_the_fuzzy_pass_only() {
    let mut table = PendingTable::new();
    let objs = cands(&[(12, "general"), (34, "random")]);
    let a = args(&["lock", "12"]);
    assert_eq!(
        find_object(&mut table, 1, 2, 0, &objs, &a, 1, FindType::Channel),
        Err(FindError::NotFound(FindType::Channel))
    );
    assert_eq!(resolve_reference(&mut table, 1, 2, 0, None, &objs, &a, 1, FindType::Channel), Ok(Some(12)));
    let b = args(&["lock", "RAND"]);
    assert_eq!(find_object(&mut table, 1, 2, 0, &objs, &b, 1, FindType::Channel), Ok(Some(34)));
    assert!(!table.has_pending(1, 0));
    let c = args(&["lock", "a"]);
    assert_eq!(find_object(&mut table, 1, 2, 0, &objs, &c, 1, FindType::Channel), Ok(None));
    assert_eq!(table.pending_names(1, 0), args(&["general", "random"]));
    assert!(table.pending_names(2, 0).is_empty());
    assert!(table.pending_names(1, EXPIRY_MS + 1).is_empty());
}

#[test]
fn channel_labels_carry_an_icon() {
    assert_eq!(channel_label(ChannelKind::Text, "general"), "\u{1f5d2}\u{fe0f} general");
    assert_eq!(channel_label(ChannelKind::Voice, "lounge"), "\u{1f399}\u{fe0f} lounge");
    assert_eq!(channel_label(ChannelKind::Other, "misc"), "\u{1f4c2} misc");
}

#[test]
fn member_fetch_is_capped() {
    assert_eq!(member_fetch_limit(None), 1000);
    assert_eq!(member_fetch_limit(Some(250)), 250);
    assert_eq!(member_fetch_limit(Some(5000)), 1000);
}

#[test]
fn only_exact_candidates_match_by_id() {
    let objs = vec![Candidate::by_name_only(77, "lounge".to_string()), Candidate::new(88, "general".to_string())];
    assert_eq!(exact_match(&objs, &"77".to_string()), None);
    assert_eq!(exact_match(&objs, &"88".to_string()), Some(88));
    assert_eq!(
        resolve(None, &objs, &"77".to_string(), FindType::Channel).unwrap_err(),
        FindError::NotFound(FindType::Channel)
    );
}

#[test]
fn listing_is_numbered_from_one() {
    assert_eq!(numbered_listing(&args(&["general", "general-chat"])), "**1.** general\n**2.** general-chat\n");
    assert_eq!(numbered_listing(&Vec::new()), "");
}

#[test]
fn find_object_getters() {
    let c = Candidate::new(42, "general".to_string());
    assert_eq!(c.get_id(), 42);
    assert_eq!(c.get_name(), "general");
}
