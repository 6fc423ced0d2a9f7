//! The commands of the main and moderation modules: their grammars and the
//! decisions they take on a matched route.
use vstd::prelude::*;
use crate::grammar::{
    chains, lemma_route_shape, match_outcome, node_is, ArgKind, GrammarNode, MatchedRoute, RouteOutcome,
};
use crate::dispatch::{routed, Outcome};
use crate::registry::{find_command, is_command_protected, protected_name, same_text, CommandError};

verus! {

/// The `SEND_MESSAGES` bit of the platform's permission set.
pub const SEND_MESSAGES: u64 = 0x800;

/// The descriptive side of a command.
pub trait Command {
    /// `r` is this command's grammar.
    spec fn grammar_ok(&self, r: Option<Vec<Vec<GrammarNode>>>) -> bool;

    /// The command's name.
    spec fn name_text(&self) -> Seq<char>;

    /// The command's description.
    spec fn desc_text(&self) -> Seq<char>;

    /// Whether the command may be used in direct messages.
    spec fn dm_allowed(&self) -> bool;

    /// The permissions the command asks for.
    spec fn perms_list(&self) -> Option<Seq<Seq<char>>>;

    fn name(&self) -> (r: String)
        ensures
            r@ == self.name_text(),
    ;

    fn desc(&self) -> (r: String)
        ensures
            r@ == self.desc_text(),
    ;

    fn use_in_dm(&self) -> (r: bool)
        ensures
            r == self.dm_allowed(),
    ;

    /// The grammar: alternatives tried in order; `None` for a command without arguments.
    fn args(&self) -> (r: Option<Vec<Vec<GrammarNode>>>)
        ensures
            self.grammar_ok(r),
    ;

    /// The permissions a member needs to run the command.
    fn perms(&self) -> (r: Option<Vec<String>>)
        ensures
            match r {
                Some(v) => self.perms_list() == Some(v.deep_view()),
                None => self.perms_list() is None,
            },
    ;
}

pub struct AboutCommand;

pub struct CmdCommand;

pub struct PermsCommand;

pub struct LockCommand;

pub struct MainModule;

impl Command for AboutCommand {
    open spec fn name_text(&self) -> Seq<char> {
        "about"@
    }

    open spec fn desc_text(&self) -> Seq<char> {
        "Shows information about this bot."@
    }

    open spec fn dm_allowed(&self) -> bool {
        true
    }

    open spec fn perms_list(&self) -> Option<Seq<Seq<char>>> {
        None
    }

    open spec fn grammar_ok(&self, r: Option<Vec<Vec<GrammarNode>>>) -> bool {
        r is None
    }

    fn name(&self) -> (r: String) {
        "about".to_owned()
    }

    fn desc(&self) -> (r: String) {
        "Shows information about this bot.".to_owned()
    }

    fn use_in_dm(&self) -> (r: bool) {
        true
    }

    fn args(&self) -> (r: Option<Vec<Vec<GrammarNode>>>) {
        None
    }

    fn perms(&self) -> (r: Option<Vec<String>>) {
        None
    }
}

impl Command for CmdCommand {
    open spec fn name_text(&self) -> Seq<char> {
        "command"@
    }

    open spec fn desc_text(&self) -> Seq<char> {
        "Managing tool for commands."@
    }

    open spec fn dm_allowed(&self) -> bool {
        false
    }

    open spec fn perms_list(&self) -> Option<Seq<Seq<char>>> {
        Some(seq!["command"@])
    }

    open spec fn grammar_ok(&self, r: Option<Vec<Vec<GrammarNode>>>) -> bool {
        r matches Some(g) && cmd_grammar_is(g@)
    }

    fn name(&self) -> (r: String) {
        "command".to_owned()
    }

    fn desc(&self) -> (r: String) {
        "Managing tool for commands.".to_owned()
    }

    fn use_in_dm(&self) -> (r: bool) {
        false
    }

    fn args(&self) -> (r: Option<Vec<Vec<GrammarNode>>>) {
        Some(cmd_grammar())
    }

    fn perms(&self) -> (r: Option<Vec<String>>) {
        let v = vec!["command".to_owned()];
        assert(v.deep_view() =~= seq!["command"@]);
        Some(v)
    }
}

impl Command for PermsCommand {
    open spec fn name_text(&self) -> Seq<char> {
        "perms"@
    }

    open spec fn desc_text(&self) -> Seq<char> {
        "permission management."@
    }

    open spec fn dm_allowed(&self) -> bool {
        false
    }

    open spec fn perms_list(&self) -> Option<Seq<Seq<char>>> {
        Some(seq!["perms"@])
    }

    open spec fn grammar_ok(&self, r: Option<Vec<Vec<GrammarNode>>>) -> bool {
        r matches Some(g) && perms_grammar_is(g@)
    }

    fn name(&self) -> (r: String) {
        "perms".to_owned()
    }

    fn desc(&self) -> (r: String) {
        "permission management.".to_owned()
    }

    fn use_in_dm(&self) -> (r: bool) {
        false
    }

    fn args(&self) -> (r: Option<Vec<Vec<GrammarNode>>>) {
        Some(perms_grammar())
    }

    fn perms(&self) -> (r: Option<Vec<String>>) {
        let v = vec!["perms".to_owned()];
        assert(v.deep_view() =~= seq!["perms"@]);
        Some(v)
    }
}

impl Command for LockCommand {
    open spec fn name_text(&self) -> Seq<char> {
        "lock"@
    }

    open spec fn desc_text(&self) -> Seq<char> {
        "Locks down the channels."@
    }

    open spec fn dm_allowed(&self) -> bool {
        false
    }

    open spec fn perms_list(&self) -> Option<Seq<Seq<char>>> {
        Some(seq!["lock"@])
    }

    open spec fn grammar_ok(&self, r: Option<Vec<Vec<GrammarNode>>>) -> bool {
        r matches Some(g) && lock_grammar_is(g@)
    }

    fn name(&self) -> (r: String) {
        "lock".to_owned()
    }

    fn desc(&self) -> (r: String) {
        "Locks down the channels.".to_owned()
    }

    fn use_in_dm(&self) -> (r: bool) {
        false
    }

    fn args(&self) -> (r: Option<Vec<Vec<GrammarNode>>>) {
        Some(lock_grammar())
    }

    fn perms(&self) -> (r: Option<Vec<String>>) {
        let v = vec!["lock".to_owned()];
        assert(v.deep_view() =~= seq!["lock"@]);
        Some(v)
    }
}

/// The grammar of `command`: `<command name> <enable/disable> <channel>`,
/// `<command name> <enable/disable>`, `<command name>`, and the bare command.
pub open spec fn cmd_grammar_is(g: Seq<Vec<GrammarNode>>) -> bool {
    &&& g.len() == 4
    &&& g[0]@.len() == 3
    &&& node_is(g[0]@[0], "<command name>"@, Some("allows you to enable/disable command for provided channel. If you want to enable/disable command for every channel then use`every-channel` in `<channel>`."@), Some(ArgKind::SingleWord))
    &&& node_is(g[0]@[1], "<enable/disable>"@, None, Some(ArgKind::FreeText))
    &&& node_is(g[0]@[2], "<channel>"@, None, Some(ArgKind::ChannelRef))
    &&& g[1]@.len() == 2
    &&& node_is(g[1]@[0], "<command name>"@, Some("allows you to enable/disable command for this channel."@), Some(ArgKind::SingleWord))
    &&& node_is(g[1]@[1], "<enable/disable>"@, None, Some(ArgKind::FreeText))
    &&& g[2]@.len() == 1
    &&& node_is(g[2]@[0], "<command name>"@, Some("shows information about provided command."@), Some(ArgKind::SingleWord))
    &&& g[3]@.len() == 1
    &&& node_is(g[3]@[0], ""@, Some("shows usage information."@), None)
}

/// The grammar of `perms`: `add <role> <permissions...>`,
/// `remove <role> <permissions...>`, and the bare command.
pub open spec fn perms_grammar_is(g: Seq<Vec<GrammarNode>>) -> bool {
    &&& g.len() == 3
    &&& g[0]@.len() == 3
    &&& node_is(g[0]@[0], "add"@, Some("adds permissions to role"@), None)
    &&& node_is(g[0]@[1], "<role>"@, None, Some(ArgKind::RoleRef))
    &&& node_is(g[0]@[2], "<permissions...>"@, None, Some(ArgKind::FreeText))
    &&& g[1]@.len() == 3
    &&& node_is(g[1]@[0], "remove"@, Some("removes permissions from role"@), None)
    &&& node_is(g[1]@[1], "<role>"@, None, Some(ArgKind::RoleRef))
    &&& node_is(g[1]@[2], "<permissions...>"@, None, Some(ArgKind::FreeText))
    &&& g[2]@.len() == 1
    &&& node_is(g[2]@[0], ""@, None, None)
}

/// The grammar of `lock`: `[channel]`.
pub open spec fn lock_grammar_is(g: Seq<Vec<GrammarNode>>) -> bool {
    &&& g.len() == 1
    &&& g[0]@.len() == 1
    &&& node_is(g[0]@[0], "[channel]"@, Some("locks down the current channel. If channel will be provided it'll be used instead."@), Some(ArgKind::ChannelRef))
}

/// The grammar of `command` (see `cmd_grammar_is`).
pub fn cmd_grammar() -> (r: Vec<Vec<GrammarNode>>)
    ensures
        cmd_grammar_is(r@),
{
    let three = vec![
        GrammarNode::placeholder("<command name>", Some("allows you to enable/disable command for provided channel. If you want to enable/disable command for every channel then use`every-channel` in `<channel>`."), ArgKind::SingleWord),
        GrammarNode::placeholder("<enable/disable>", None, ArgKind::FreeText),
        GrammarNode::placeholder("<channel>", None, ArgKind::ChannelRef),
    ];
    let two = vec![
        GrammarNode::placeholder("<command name>", Some("allows you to enable/disable command for this channel."), ArgKind::SingleWord),
        GrammarNode::placeholder("<enable/disable>", None, ArgKind::FreeText),
    ];
    let one = vec![GrammarNode::placeholder("<command name>", Some("shows information about provided command."), ArgKind::SingleWord)];
    let bare = vec![GrammarNode::literal("", Some("shows usage information."))];
    vec![three, two, one, bare]
}

/// The grammar of `perms` (see `perms_grammar_is`).
pub fn perms_grammar() -> (r: Vec<Vec<GrammarNode>>)
    ensures
        perms_grammar_is(r@),
{
    let add = vec![
        GrammarNode::literal("add", Some("adds permissions to role")),
        GrammarNode::placeholder("<role>", None, ArgKind::RoleRef),
        GrammarNode::placeholder("<permissions...>", None, ArgKind::FreeText),
    ];
    let remove = vec![
        GrammarNode::literal("remove", Some("removes permissions from role")),
        GrammarNode::placeholder("<role>", None, ArgKind::RoleRef),
        GrammarNode::placeholder("<permissions...>", None, ArgKind::FreeText),
    ];
    let bare = vec![GrammarNode::literal("", None)];
    vec![add, remove, bare]
}

/// The grammar of `lock` (see `lock_grammar_is`).
pub fn lock_grammar() -> (r: Vec<Vec<GrammarNode>>)
    ensures
        lock_grammar_is(r@),
{
    vec![vec![GrammarNode::placeholder("[channel]", Some("locks down the current channel. If channel will be provided it'll be used instead."), ArgKind::ChannelRef)]]
}

/// What `command` does with a matched route.
#[derive(Clone, Copy, PartialEq, Eq, Structural, Debug)]
pub enum CmdAction {
    /// Show the command's usage help.
    ShowUsage,
    /// Show which channels the named command is disabled in.
    ShowInfo,
    /// Enable or disable the named command in the current channel.
    ChangeHere { enable: bool },
    /// Enable or disable the named command in every channel.
    ChangeEverywhere { enable: bool },
    /// Enable or disable the named command in the channel that the third
    /// argument names, once resolved.
    ChangeIn { enable: bool },
}

/// The switch word of a change: `Some(true)` to enable, `Some(false)` to disable.
pub open spec fn switch_of(word: Seq<char>) -> Option<bool> {
    if word == "enable"@ {
        Some(true)
    } else if word == "disable"@ {
        Some(false)
    } else {
        None
    }
}

pub open spec fn is_registered(name: Seq<char>, registered: Seq<String>) -> bool {
    exists|j: int| 0 <= j < registered.len() && #[trigger] registered[j]@ == name
}

/// The decision of `command` on a route of `route_len` nodes (none where no
/// alternative matched) over the arguments `args`.
pub open spec fn cmd_plan(route_len: Option<usize>, args: Seq<Seq<char>>, registered: Seq<String>) -> Result<
    CmdAction,
    CommandError,
> {
    match route_len {
        None => Ok(CmdAction::ShowUsage),
        Some(n) => if n == 0 || n > 3 || n > args.len() {
            Ok(CmdAction::ShowUsage)
        } else if protected_name(args[0]) {
            if n == 1 {
                Err(CommandError::ProtectedDetails)
            } else {
                Err(CommandError::ProtectedCommand)
            }
        } else if !is_registered(args[0], registered) {
            Err(CommandError::UnknownCommand)
        } else if n == 1 {
            Ok(CmdAction::ShowInfo)
        } else {
            match switch_of(args[1]) {
                None => Err(CommandError::Parse(1)),
                Some(enable) => if n == 2 {
                    Ok(CmdAction::ChangeHere { enable })
                } else if args[2] == "every-channel"@ {
                    Ok(CmdAction::ChangeEverywhere { enable })
                } else {
                    Ok(CmdAction::ChangeIn { enable })
                },
            }
        },
    }
}

impl CmdCommand {
    /// Decides what a `command` invocation does; the form of the route (its
    /// length) tells the alternatives apart.
    pub fn plan(&self, route_len: Option<usize>, args: &Vec<String>, registered: &Vec<String>) -> (r:
        Result<CmdAction, CommandError>)
        ensures
            r == cmd_plan(route_len, args.deep_view(), registered@),
    {
        let ghost a = args.deep_view();
        let n = match route_len {
            None => return Ok(CmdAction::ShowUsage),
            Some(n) => n,
        };
        if n == 0 || n > 3 || n > args.len() {
            return Ok(CmdAction::ShowUsage);
        }
        assert(a[0] == args@[0]@);
        if is_command_protected(&args[0]) {
            if n == 1 {
                return Err(CommandError::ProtectedDetails);
            }
            return Err(CommandError::ProtectedCommand);
        }
        if find_command(&args[0], registered).is_err() {
            return Err(CommandError::UnknownCommand);
        }
        if n == 1 {
            return Ok(CmdAction::ShowInfo);
        }
        assert(a[1] == args@[1]@);
        let enable = if same_text(&args[1], "enable") {
            true
        } else if same_text(&args[1], "disable") {
            false
        } else {
            return Err(CommandError::Parse(1));
        };
        if n == 2 {
            return Ok(CmdAction::ChangeHere { enable });
        }
        assert(a[2] == args@[2]@);
        if same_text(&args[2], "every-channel") {
            Ok(CmdAction::ChangeEverywhere { enable })
        } else {
            Ok(CmdAction::ChangeIn { enable })
        }
    }
}

/// A change of a protected command always fails with `ProtectedCommand`,
/// whatever else the arguments say (asking for its details gives
/// `ProtectedDetails`). Where no alternative matched at all, usage help is
/// shown instead.
pub proof fn lemma_protected_change_fails(n: usize, args: Seq<Seq<char>>, registered: Seq<String>)
    requires
        2 <= n <= 3,
        n <= args.len(),
        protected_name(args[0]),
    ensures
        cmd_plan(Some(n), args, registered) == Err::<CmdAction, CommandError>(CommandError::ProtectedCommand),
{
}

/// Through the whole pipeline: where `command`'s tokens route to a change
/// form (two or three nodes) of a protected command, the plan fails with
/// `ProtectedCommand`, whatever the other tokens say.
pub proof fn lemma_protected_route_fails(
    g: Seq<Vec<GrammarNode>>,
    toks: Seq<Seq<char>>,
    o: Outcome,
    registered: Seq<String>,
)
    requires
        routed(g, toks, o),
        o matches Outcome::RouteReady { route, args } && 2 <= route.nodes@.len() <= 3,
        toks.len() > 1,
        protected_name(toks[1]),
    ensures
        o matches Outcome::RouteReady { route, args } && cmd_plan(
            Some(route.nodes@.len() as usize),
            toks.skip(1),
            registered,
        ) == Err::<CmdAction, CommandError>(CommandError::ProtectedCommand),
{
    lemma_route_shape(chains(g), toks.skip(1));
    if let Outcome::RouteReady { route, args } = o {
        if let RouteOutcome::Route(a) = match_outcome(chains(g), toks.skip(1)) {
            assert(chains(g)[a] == g[a]@);
            assert(toks.skip(1)[0] == toks[1]);
        }
    }
}

/// `s` without its first occurrence of `c`.
pub open spec fn remove_first(s: Seq<u64>, c: u64) -> Seq<u64>
    decreases s.len(),
{
    if s.len() == 0 {
        s
    } else if s[0] == c {
        s.drop_first()
    } else {
        seq![s[0]] + remove_first(s.drop_first(), c)
    }
}

proof fn lemma_remove_first_at(s: Seq<u64>, c: u64, i: int)
    requires
        0 <= i < s.len(),
        s[i] == c,
        forall|j: int| 0 <= j < i ==> s[j] != c,
    ensures
        remove_first(s, c) == s.remove(i),
    decreases i,
{
    if i == 0 {
        assert(s.drop_first() =~= s.remove(0));
    } else {
        lemma_remove_first_at(s.drop_first(), c, i - 1);
        assert(seq![s[0]] + s.drop_first().remove(i - 1) =~= s.remove(i));
    }
}

proof fn lemma_remove_first_absent(s: Seq<u64>, c: u64)
    requires
        !s.contains(c),
    ensures
        remove_first(s, c) == s,
    decreases s.len(),
{
    if s.len() > 0 {
        assert(s[0] != c);
        assert(!s.drop_first().contains(c)) by {
            if s.drop_first().contains(c) {
                let k = choose|k: int| 0 <= k < s.drop_first().len() && s.drop_first()[k] == c;
                assert(s[k + 1] == c);
            }
        }
        lemma_remove_first_absent(s.drop_first(), c);
        assert(seq![s[0]] + s.drop_first() =~= s);
    }
}

/// The channels a command is disabled in after a change: in one channel
/// (`target`), disabling adds it once and enabling removes its first
/// occurrence; in every channel, disabling lists all `text_channels` and
/// enabling clears the list.
pub open spec fn changed_channels(disabled: Seq<u64>, enable: bool, target: Option<u64>, text_channels: Seq<u64>) -> Seq<u64> {
    match target {
        None => if enable {
            seq![]
        } else {
            text_channels
        },
        Some(c) => if enable {
            remove_first(disabled, c)
        } else if disabled.contains(c) {
            disabled
        } else {
            disabled.push(c)
        },
    }
}

/// Applies an enable or disable to the list of channels a command is disabled in.
pub fn apply_change(disabled: &mut Vec<u64>, enable: bool, target: Option<u64>, text_channels: &Vec<u64>)
    ensures
        final(disabled)@ == changed_channels(old(disabled)@, enable, target, text_channels@),
{
    match target {
        None => {
            if enable {
                disabled.clear();
                assert(disabled@ =~= Seq::<u64>::empty());
            } else {
                *disabled = text_channels.clone();
                assert(disabled@ =~= text_channels@);
            }
        },
        Some(c) => {
            let mut i: usize = 0;
            while i < disabled.len() && disabled[i] != c
                invariant
                    i <= disabled@.len(),
                    disabled@ == old(disabled)@,
                    forall|j: int| 0 <= j < i ==> disabled@[j] != c,
                decreases disabled@.len() - i,
            {
                i = i + 1;
            }
            if i < disabled.len() {
                assert(disabled@.contains(c)) by {
                    assert(disabled@[i as int] == c);
                }
                if enable {
                    proof {
                        lemma_remove_first_at(disabled@, c, i as int);
                    }
                    disabled.remove(i);
                }
            } else {
                assert(!disabled@.contains(c));
                if enable {
                    proof {
                        lemma_remove_first_absent(disabled@, c);
                    }
                } else {
                    disabled.push(c);
                }
            }
        },
    }
}

/// The permission overwrite that locks a channel for the everyone role:
/// `existing` is the role's current overwrite as (allow, deny) bits; sending
/// messages is taken from `allow` and added to `deny`, all else is kept.
pub fn lock_overwrite(existing: Option<(u64, u64)>) -> (r: (u64, u64))
    ensures
        r == match existing {
            None => (0u64, SEND_MESSAGES),
            Some((allow, deny)) => (allow & !SEND_MESSAGES, deny | SEND_MESSAGES),
        },
{
    match existing {
        None => (0, SEND_MESSAGES),
        Some((allow, deny)) => (allow & !SEND_MESSAGES, deny | SEND_MESSAGES),
    }
}

/// Which channel `lock` acts on.
#[derive(Clone, Copy, PartialEq, Eq, Structural, Debug)]
pub enum LockTarget {
    /// The channel the command was typed in.
    Current,
    /// The channel that the first argument names, once resolved.
    Named,
}

impl LockCommand {
    /// Without a matched route the current channel is locked.
    pub fn target(&self, route: &Option<MatchedRoute>) -> (r: LockTarget)
        ensures
            r == (if route is None {
                LockTarget::Current
            } else {
                LockTarget::Named
            }),
    {
        match route {
            None => LockTarget::Current,
            Some(_) => LockTarget::Named,
        }
    }
}

/// What `perms` does with a matched route.
#[derive(Clone, Copy, PartialEq, Eq, Structural, Debug)]
pub enum PermsAction {
    /// Nothing to do.
    Nothing,
    /// Add permissions to the role that the second argument names.
    Add,
}

impl PermsCommand {
    /// An `add` route adds permissions; any other route, or none, does nothing.
    pub fn plan(&self, route: &Option<MatchedRoute>) -> (r: PermsAction)
        ensures
            r == match route {
                Some(rt) => if rt.nodes@.len() > 0 && rt.nodes@[0].label@ == "add"@ {
                    PermsAction::Add
                } else {
                    PermsAction::Nothing
                },
                None => PermsAction::Nothing,
            },
    {
        match route {
            Some(rt) => {
                if rt.nodes.len() > 0 && same_text(&rt.nodes[0].label, "add") {
                    PermsAction::Add
                } else {
                    PermsAction::Nothing
                }
            },
            None => PermsAction::Nothing,
        }
    }
}

impl MainModule {
    pub fn name(&self) -> (r: String)
        ensures
            r@ == "main"@,
    {
        "main".to_owned()
    }

    pub fn desc(&self) -> (r: String)
        ensures
            r@ == "Main module that provides basic commands for this bot."@,
    {
        "Main module that provides basic commands for this bot.".to_owned()
    }

    /// The names of the module's commands, in the order they are listed.
    pub fn commands(&self) -> (r: Vec<String>)
        ensures
            r.deep_view() == seq!["help"@, "about"@, "modules"@, "prefix"@, "perms"@, "command"@, "setup"@],
    {
        let r = vec![
            "help".to_owned(),
            "about".to_owned(),
            "modules".to_owned(),
            "prefix".to_owned(),
            "perms".to_owned(),
            "command".to_owned(),
            "setup".to_owned(),
        ];
        assert(r.deep_view() =~= seq!["help"@, "about"@, "modules"@, "prefix"@, "perms"@, "command"@, "setup"@]);
        r
    }
}

} // verus!
