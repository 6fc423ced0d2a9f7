use utterbot::commands::{
    apply_change, lock_overwrite, AboutCommand, CmdAction, CmdCommand, Command, LockCommand, LockTarget,
    MainModule, PermsAction, PermsCommand, SEND_MESSAGES,
};
use utterbot::grammar::match_route;
use utterbot::registry::{find_command, is_command_protected, CommandError};
use utterbot::resolve::FindType;

fn words(ws: &[&str]) -> Vec<String> {
    ws.iter().map(|w| w.to_string()).collect()
}

fn registered() -> Vec<String> {
    MainModule.commands()
}

#[test]
fn protected_commands() {
    assert!(is_command_protected(&"command".to_string()));
    assert!(is_command_protected(&"help".to_string()));
    assert!(!is_command_protected(&"about".to_string()));
}

#[test]
fn protected_change_always_fails() {
    let c = CmdCommand;
    let reg = registered();
    for n in 2..=3usize {
        assert_eq!(
            c.plan(Some(n), &words(&["help", "disable", "general"]), &reg),
            Err(CommandError::ProtectedCommand)
        );
    }
    assert_eq!(c.plan(Some(1), &words(&["help"]), &reg), Err(CommandError::ProtectedDetails));
    assert_eq!(
        CommandError::ProtectedDetails.message(),
        "Command is protected. Enabled in every channel by default!"
    );
    assert_eq!(
        c.plan(Some(2), &words(&["command", "whatever"]), &Vec::new()),
        Err(CommandError::ProtectedCommand)
    );
}

#[test]
fn cmd_plan_by_route_length() {
    let c = CmdCommand;
    let reg = registered();
    assert_eq!(c.plan(None, &words(&[]), &reg), Ok(CmdAction::ShowUsage));
    assert_eq!(c.plan(Some(1), &words(&["about"]), &reg), Ok(CmdAction::ShowInfo));
    assert_eq!(c.plan(Some(2), &words(&["about", "disable"]), &reg), Ok(CmdAction::ChangeHere { enable: false }));
    assert_eq!(
        c.plan(Some(3), &words(&["about", "enable", "every-channel"]), &reg),
        Ok(CmdAction::ChangeEverywhere { enable: true })
    );
    assert_eq!(
        c.plan(Some(3), &words(&["about", "enable", "general"]), &reg),
        Ok(CmdAction::ChangeIn { enable: true })
    );
    assert_eq!(c.plan(Some(2), &words(&["about", "toggle"]), &reg), Err(CommandError::Parse(1)));
    assert_eq!(c.plan(Some(1), &words(&["nosuch"]), &reg), Err(CommandError::UnknownCommand));
}

#[test]
fn cmd_route_then_plan() {
    let c = CmdCommand;
    let g = c.args().unwrap();
    let a = words(&["about", "disable"]);
    let route = match_route(&g, &a).unwrap().unwrap();
    assert_eq!(c.plan(Some(route.nodes.len()), &a, &registered()), Ok(CmdAction::ChangeHere { enable: false }));
}

#[test]
fn find_command_index() {
    let reg = registered();
    assert_eq!(find_command(&"perms".to_string(), &reg), Ok(4));
    assert_eq!(find_command(&"ban".to_string(), &reg), Err(CommandError::UnknownCommand));
}

#[test]
fn change_one_channel() {
    let mut d = vec![1u64, 2, 3, 2];
    apply_change(&mut d, true, Some(2), &vec![]);
    assert_eq!(d, vec![1, 3, 2]);
    apply_change(&mut d, false, Some(9), &vec![]);
    assert_eq!(d, vec![1, 3, 2, 9]);
    apply_change(&mut d, false, Some(3), &vec![]);
    assert_eq!(d, vec![1, 3, 2, 9]);
    apply_change(&mut d, true, Some(42), &vec![]);
    assert_eq!(d, vec![1, 3, 2, 9]);
}

#[test]
fn change_every_channel() {
    let mut d = vec![1u64];
    apply_change(&mut d, false, None, &vec![4, 5, 6]);
    assert_eq!(d, vec![4, 5, 6]);
    apply_change(&mut d, true, None, &vec![4, 5, 6]);
    assert!(d.is_empty());
}

#[test]
fn lock_overwrite_bits() {
    assert_eq!(lock_overwrite(None), (0, SEND_MESSAGES));
    assert_eq!(lock_overwrite(Some((0x801, 0x2))), (0x1, 0x802));
    assert_eq!(SEND_MESSAGES, 0x800);
}

#[test]
fn lock_target() {
    let l = LockCommand;
    let g = l.args().unwrap();
    assert_eq!(l.target(&match_route(&g, &words(&[])).unwrap()), LockTarget::Current);
    assert_eq!(l.target(&match_route(&g, &words(&["general"])).unwrap()), LockTarget::Named);
}

#[test]
fn perms_plan() {
    let p = PermsCommand;
    let g = p.args().unwrap();
    let add = match_route(&g, &words(&["add", "mods", "kick"])).unwrap();
    assert_eq!(p.plan(&add), PermsAction::Add);
    let rem = match_route(&g, &words(&["remove", "mods", "kick"])).unwrap();
    assert_eq!(p.plan(&rem), PermsAction::Nothing);
    assert_eq!(p.plan(&None), PermsAction::Nothing);
}

#[test]
fn descriptors() {
    assert_eq!(AboutCommand.name(), "about");
    assert!(AboutCommand.use_in_dm());
    assert!(AboutCommand.args().is_none());
    assert_eq!(CmdCommand.name(), "command");
    assert_eq!(CmdCommand.perms(), Some(vec!["command".to_string()]));
    assert_eq!(LockCommand.name(), "lock");
    assert_eq!(PermsCommand.desc(), "permission management.");
    assert_eq!(MainModule.name(), "main");
    assert_eq!(MainModule.commands().len(), 7);
}

#[test]
fn error_messages() {
    assert_eq!(CommandError::NotFound(FindType::Channel).message(), "Could not find requested channel!");
    assert_eq!(CommandError::TooManyResults.message(), "Too many results. Please be more specific.");
    assert_eq!(CommandError::ProtectedCommand.message(), "Command is protected. It can't be modified!");
    assert_eq!(FindType::Role.label(), "role");
    assert_eq!(CommandError::UpstreamUnavailable(FindType::Role).message(), "Could not retrieve guild roles!");
    assert_eq!(CommandError::UpstreamUnavailable(FindType::User).message(), "Could not retrieve guild members!");
    assert_eq!(CommandError::LockRefused.message(), "Could not lock the channel. Check permissions!");
}

#[test]
fn grammar_labels() {
    let g = CmdCommand.args().unwrap();
    let labels: Vec<Vec<&str>> = g.iter().map(|c| c.iter().map(|n| n.label.as_str()).collect()).collect();
    assert_eq!(
        labels,
        vec![
            vec!["<command name>", "<enable/disable>", "<channel>"],
            vec!["<command name>", "<enable/disable>"],
            vec!["<command name>"],
            vec![""],
        ]
    );
    assert_eq!(g[3][0].help.as_deref(), Some("shows usage information."));
    let p = PermsCommand.args().unwrap();
    assert_eq!(p[1][0].label, "remove");
    assert_eq!(p[0][1].label, "<role>");
    assert_eq!(p[0][2].label, "<permissions...>");
    let l = LockCommand.args().unwrap();
    assert_eq!(l[0][0].label, "[channel]");
}
