//! The client's command line: program arguments and the commands typed at
//! the prompt.

use vstd::prelude::*;
use vstd::string::{StrSliceExecFns, StringExecFns};
use crate::endpoints::{endpoints_for, server_or_default, EndpointError, ServerEndpoints};
use crate::protocol::{EncryptedChatMessage, PlaintextChatMessage, PublicKeyEntry};
use crate::text::{chars_of, has_prefix, same_text, starts_with, trim, trim_ws};

verus! {

broadcast use vstd::string::group_string_axioms;

/// A command typed at the prompt.
#[derive(Clone, Debug, PartialEq, Eq)]
pub enum Command {
    /// A blank line.
    Empty,
    Quit,
    Help,
    /// List the saved contacts.
    Contacts,
    /// Look up a user's public key and save it as a contact.
    Add(String),
    /// Send a message; the text after the command word.
    Send(String),
    Unknown,
}

pub enum CommandView {
    Empty,
    Quit,
    Help,
    Contacts,
    Add(Seq<char>),
    Send(Seq<char>),
    Unknown,
}

impl View for Command {
    type V = CommandView;

    open spec fn view(&self) -> CommandView {
        match self {
            Command::Empty => CommandView::Empty,
            Command::Quit => CommandView::Quit,
            Command::Help => CommandView::Help,
            Command::Contacts => CommandView::Contacts,
            Command::Add(s) => CommandView::Add(s@),
            Command::Send(s) => CommandView::Send(s@),
            Command::Unknown => CommandView::Unknown,
        }
    }
}

/// The command a typed line stands for. The line is trimmed first;
/// `/add` and `/lookup` take a (trimmed) username, `/send` and `/to` the rest
/// of the line.
pub open spec fn command_of(line: Seq<char>) -> CommandView {
    let c = trim_ws(line);
    if c.len() == 0 {
        CommandView::Empty
    } else if c == "/quit"@ {
        CommandView::Quit
    } else if c == "/help"@ {
        CommandView::Help
    } else if c == "/contacts"@ {
        CommandView::Contacts
    } else if has_prefix(c, "/add "@) {
        CommandView::Add(trim_ws(c.skip("/add "@.len() as int)))
    } else if has_prefix(c, "/send "@) {
        CommandView::Send(c.skip("/send "@.len() as int))
    } else if has_prefix(c, "/to "@) {
        CommandView::Send(c.skip("/to "@.len() as int))
    } else if has_prefix(c, "/lookup "@) {
        CommandView::Add(trim_ws(c.skip("/lookup "@.len() as int)))
    } else {
        CommandView::Unknown
    }
}

/// The username of an `/add` (or `/lookup`) command never starts or ends
/// with white space.
pub proof fn lemma_added_username_is_trimmed(line: Seq<char>)
    ensures
        command_of(line) matches CommandView::Add(u) ==> trim_ws(u) == u,
{
    let c = trim_ws(line);
    crate::text::lemma_trim_ws_idempotent(c.skip("/add "@.len() as int));
    crate::text::lemma_trim_ws_idempotent(c.skip("/lookup "@.len() as int));
}

/// Texts whose second characters differ are different, and neither starts
/// with the other.
proof fn lemma_second_char_differs(c: Seq<char>, lit: Seq<char>)
    requires
        c.len() >= 2,
        lit.len() >= 2,
        c[1] != lit[1],
    ensures
        c != lit,
        !has_prefix(c, lit),
{
    if has_prefix(c, lit) {
        assert(c.subrange(0, lit.len() as int)[1] == c[1]);
    }
}

/// `/lookup` is the same command as `/add`: whatever follows it, both lines
/// mean the same.
pub proof fn lemma_lookup_is_add(x: Seq<char>)
    ensures
        command_of("/lookup "@ + x) == command_of("/add "@ + x),
{
    reveal_strlit("/quit");
    reveal_strlit("/help");
    reveal_strlit("/contacts");
    reveal_strlit("/add ");
    reveal_strlit("/send ");
    reveal_strlit("/to ");
    reveal_strlit("/lookup ");
    let l = "/lookup "@;
    let a = "/add "@;
    crate::text::lemma_trim_start_kept(l + x);
    crate::text::lemma_trim_start_kept(a + x);
    crate::text::lemma_trim_end_concat(l, x);
    crate::text::lemma_trim_end_concat(a, x);
    let e = crate::text::trim_end_ws(x);
    let cl = trim_ws(l + x);
    let ca = trim_ws(a + x);
    if e.len() > 0 {
        assert(cl == l + e);
        assert(ca == a + e);
        assert(cl[1] == 'l');
        assert(ca[1] == 'a');
        lemma_second_char_differs(cl, "/quit"@);
        lemma_second_char_differs(cl, "/help"@);
        lemma_second_char_differs(cl, "/contacts"@);
        lemma_second_char_differs(cl, "/add "@);
        lemma_second_char_differs(cl, "/send "@);
        lemma_second_char_differs(cl, "/to "@);
        assert(cl.subrange(0, 8) =~= l);
        assert(cl.skip(8) =~= e);
        lemma_second_char_differs(ca, "/quit"@);
        lemma_second_char_differs(ca, "/help"@);
        lemma_second_char_differs(ca, "/contacts"@);
        assert(ca.subrange(0, 5) =~= a);
        assert(ca.skip(5) =~= e);
    } else {
        let ld = l.drop_last();
        assert(ld =~= seq!['/', 'l', 'o', 'o', 'k', 'u', 'p']);
        assert(crate::text::is_whitespace(l.last()));
        assert(!crate::text::is_whitespace(ld.last()));
        assert(crate::text::trim_end_ws(ld) == ld);
        assert(crate::text::trim_end_ws(l) == ld);
        let ad = a.drop_last();
        assert(ad =~= seq!['/', 'a', 'd', 'd']);
        assert(crate::text::is_whitespace(a.last()));
        assert(!crate::text::is_whitespace(ad.last()));
        assert(crate::text::trim_end_ws(ad) == ad);
        assert(crate::text::trim_end_ws(a) == ad);
        assert(cl[1] == 'l');
        assert(ca[1] == 'a');
        lemma_second_char_differs(cl, "/quit"@);
        lemma_second_char_differs(cl, "/help"@);
        lemma_second_char_differs(cl, "/contacts"@);
        lemma_second_char_differs(cl, "/add "@);
        lemma_second_char_differs(cl, "/send "@);
        lemma_second_char_differs(cl, "/to "@);
        lemma_second_char_differs(ca, "/quit"@);
        lemma_second_char_differs(ca, "/help"@);
        lemma_second_char_differs(ca, "/contacts"@);
        lemma_second_char_differs(ca, "/to "@);
        assert(command_of("/lookup "@ + x) == CommandView::Unknown);
        assert(command_of("/add "@ + x) == CommandView::Unknown);
    }
}

/// The rest of `c` after `prefix`, when `c` starts with it.
fn after_prefix<'a>(c: &'a str, prefix: &str) -> (r: Option<&'a str>)
    ensures
        has_prefix(c@, prefix@) <==> r is Some,
        r matches Some(rest) ==> rest@ == c@.skip(prefix@.len() as int),
{
    let chars = chars_of(c);
    if starts_with(&chars, &chars_of(prefix)) {
        let rest = c.substring_char(prefix.unicode_len(), chars.len());
        assert(rest@ =~= c@.skip(prefix@.len() as int));
        Some(rest)
    } else {
        None
    }
}

/// Classifies a line typed at the prompt.
pub fn classify_command(line: &str) -> (r: Command)
    ensures
        r@ == command_of(line@),
{
    let c = trim(line);
    if c.unicode_len() == 0 {
        return Command::Empty;
    }
    if same_text(c, "/quit") {
        return Command::Quit;
    }
    if same_text(c, "/help") {
        return Command::Help;
    }
    if same_text(c, "/contacts") {
        return Command::Contacts;
    }
    if let Some(rest) = after_prefix(c, "/add ") {
        return Command::Add(String::from_str(trim(rest)));
    }
    if let Some(rest) = after_prefix(c, "/send ") {
        return Command::Send(String::from_str(rest));
    }
    if let Some(rest) = after_prefix(c, "/to ") {
        return Command::Send(String::from_str(rest));
    }
    if let Some(rest) = after_prefix(c, "/lookup ") {
        return Command::Add(String::from_str(trim(rest)));
    }
    Command::Unknown
}

/// Index of the first `c` in `s`, or -1.
pub open spec fn first_index_of(s: Seq<char>, c: char) -> int
    decreases s.len(),
{
    if s.len() == 0 {
        -1
    } else if s[0] == c {
        0
    } else {
        let k = first_index_of(s.drop_first(), c);
        if k < 0 {
            -1
        } else {
            k + 1
        }
    }
}

/// The recipient and the body of `/send <username> <message>`: the trimmed
/// text is split at its first space and both parts trimmed; `None` when
/// there is no space or either part is empty.
pub open spec fn send_args_of(rest: Seq<char>) -> Option<(Seq<char>, Seq<char>)> {
    let t = trim_ws(rest);
    let i = first_index_of(t, ' ');
    if i < 0 {
        None
    } else {
        let recipient = trim_ws(t.take(i));
        let body = trim_ws(t.skip(i + 1));
        if recipient.len() == 0 || body.len() == 0 {
            None
        } else {
            Some((recipient, body))
        }
    }
}

fn find_space(chars: &Vec<char>) -> (r: Option<usize>)
    ensures
        match r {
            Some(i) => i < chars@.len() && first_index_of(chars@, ' ') == i,
            None => first_index_of(chars@, ' ') < 0,
        },
{
    let mut i: usize = 0;
    assert(chars@.skip(0) =~= chars@);
    while i < chars.len()
        invariant
            i <= chars@.len(),
            forall|j: int| 0 <= j < i ==> chars@[j] != ' ',
            first_index_of(chars@, ' ') == (if first_index_of(chars@.skip(i as int), ' ') < 0 {
                -1
            } else {
                first_index_of(chars@.skip(i as int), ' ') + i
            }),
        decreases chars@.len() - i,
    {
        if chars[i] == ' ' {
            return Some(i);
        }
        assert(chars@.skip(i as int).drop_first() =~= chars@.skip(i + 1));
        i += 1;
    }
    None
}

/// Splits the text after `/send` into recipient and body.
pub fn parse_send_command(rest: &str) -> (r: Option<(String, String)>)
    ensures
        match r {
            Some((recipient, body)) => send_args_of(rest@) == Some((recipient@, body@)),
            None => send_args_of(rest@) is None,
        },
{
    let t = trim(rest);
    let chars = chars_of(t);
    match find_space(&chars) {
        None => None,
        Some(i) => {
            let n = chars.len();
            assert(i < n);
            let head = t.substring_char(0, i);
            let tail = t.substring_char(i + 1, n);
            assert(head@ =~= t@.take(i as int));
            assert(tail@ =~= t@.skip(i + 1));
            let recipient = trim(head);
            let body = trim(tail);
            if recipient.unicode_len() == 0 || body.unicode_len() == 0 {
                None
            } else {
                Some((String::from_str(recipient), String::from_str(body)))
            }
        },
    }
}

/// What the scan of the program arguments has collected so far.
pub struct ArgScan {
    pub name: Option<Seq<char>>,
    pub server: Option<Seq<char>>,
    pub positional: Seq<Seq<char>>,
}

/// Why the program arguments were refused.
pub enum ArgsFailure {
    MissingUsernameValue,
    MissingServerValue,
    UnknownOption(Seq<char>),
    TooManyArguments,
    UsernameRequired,
    UnsupportedServer,
}

/// Where scanning the arguments ends.
pub enum ArgScanOutcome {
    Help,
    Failed(ArgsFailure),
    Scanned(ArgScan),
}

/// What the program arguments ask for.
pub enum ArgsOutcome {
    /// Print the usage and stop.
    Help,
    Failed(ArgsFailure),
    /// Run as user `name` against the relay `server` (or the default one).
    Run { name: Seq<char>, server: Option<Seq<char>> },
}

/// Scans the arguments from the front: `--help`/`-h` stops at once,
/// `--username`/`-u` and `--server`/`-s` take the next argument, any other
/// argument starting with '-' is refused, the rest are positional.
pub open spec fn scan_args(args: Seq<Seq<char>>, st: ArgScan) -> ArgScanOutcome
    decreases args.len(),
{
    if args.len() == 0 {
        ArgScanOutcome::Scanned(st)
    } else {
        let a = args[0];
        let rest = args.drop_first();
        if a == "--help"@ || a == "-h"@ {
            ArgScanOutcome::Help
        } else if a == "--username"@ || a == "-u"@ {
            if rest.len() == 0 {
                ArgScanOutcome::Failed(ArgsFailure::MissingUsernameValue)
            } else {
                scan_args(rest.drop_first(), ArgScan { name: Some(rest[0]), ..st })
            }
        } else if a == "--server"@ || a == "-s"@ {
            if rest.len() == 0 {
                ArgScanOutcome::Failed(ArgsFailure::MissingServerValue)
            } else {
                scan_args(rest.drop_first(), ArgScan { server: Some(rest[0]), ..st })
            }
        } else if a.len() > 0 && a[0] == '-' {
            ArgScanOutcome::Failed(ArgsFailure::UnknownOption(a))
        } else {
            scan_args(rest, ArgScan { positional: st.positional.push(a), ..st })
        }
    }
}

/// After the scan: the first positional argument is the username unless one
/// was named, the next the server unless one was named; any positional
/// argument left over, a missing username or an unusable server is refused.
pub open spec fn finish_args(st: ArgScan) -> ArgsOutcome {
    let name_taken = st.name is None && st.positional.len() > 0;
    let name = if name_taken {
        Some(st.positional[0])
    } else {
        st.name
    };
    let pos1 = if name_taken {
        st.positional.drop_first()
    } else {
        st.positional
    };
    let server_taken = st.server is None && pos1.len() > 0;
    let server = if server_taken {
        Some(pos1[0])
    } else {
        st.server
    };
    let pos2 = if server_taken {
        pos1.drop_first()
    } else {
        pos1
    };
    if pos2.len() > 0 {
        ArgsOutcome::Failed(ArgsFailure::TooManyArguments)
    } else {
        match name {
            None => ArgsOutcome::Failed(ArgsFailure::UsernameRequired),
            Some(n) => if endpoints_for(server_or_default(server)) is None {
                ArgsOutcome::Failed(ArgsFailure::UnsupportedServer)
            } else {
                ArgsOutcome::Run { name: n, server }
            },
        }
    }
}

/// What the program arguments (without the program name) ask for.
pub open spec fn args_outcome(args: Seq<Seq<char>>) -> ArgsOutcome {
    match scan_args(args, ArgScan { name: None, server: None, positional: Seq::empty() }) {
        ArgScanOutcome::Help => ArgsOutcome::Help,
        ArgScanOutcome::Failed(f) => ArgsOutcome::Failed(f),
        ArgScanOutcome::Scanned(st) => finish_args(st),
    }
}

/// Once the username is settled, by `--username` or by position, the one
/// positional argument left over is the server: `--username n s` and `n s`
/// both run as `n` against `s` (for a usable server address `s`, and a
/// positional `n` that does not start with '-').
pub proof fn lemma_leftover_positional_is_server(n: Seq<char>, s: Seq<char>)
    requires
        endpoints_for(s) is Some,
    ensures
        args_outcome(seq!["--username"@, n, s]) == (ArgsOutcome::Run { name: n, server: Some(s) }),
        !(n.len() > 0 && n[0] == '-') ==> args_outcome(seq![n, s]) == (ArgsOutcome::Run {
            name: n,
            server: Some(s),
        }),
{
    reveal_strlit("--help");
    reveal_strlit("-h");
    reveal_strlit("--username");
    reveal_strlit("-u");
    reveal_strlit("--server");
    reveal_strlit("-s");
    lemma_usable_server_is_not_an_option(s);
    let empty = ArgScan { name: None, server: None, positional: Seq::<Seq<char>>::empty() };
    let a1 = seq!["--username"@, n, s];
    assert(a1.drop_first().drop_first() =~= seq![s]);
    assert(seq![s].drop_first() =~= Seq::<Seq<char>>::empty());
    let st1 = ArgScan { name: Some(n), ..empty };
    assert(a1[0] == "--username"@);
    assert("--username"@.len() == 10 && "--help"@.len() == 6 && "-h"@.len() == 2);
    assert("--username"@ != "--help"@ && "--username"@ != "-h"@);
    assert(a1.drop_first()[0] == n);
    assert(scan_args(a1, empty) == scan_args(seq![s], st1));
    assert(st1.positional.push(s) =~= seq![s]);
    let st1b = ArgScan { positional: seq![s], ..st1 };
    assert(scan_args(seq![s], st1) == scan_args(Seq::empty(), st1b));
    assert(st1b.positional.drop_first() =~= Seq::<Seq<char>>::empty());
    assert(finish_args(st1b) == (ArgsOutcome::Run { name: n, server: Some(s) }));
    if !(n.len() > 0 && n[0] == '-') {
        assert(n != "--help"@ && n != "-h"@ && n != "--username"@ && n != "-u"@ && n != "--server"@
            && n != "-s"@) by {
            if n.len() > 0 {
                assert("--help"@[0] == '-');
            }
        }
        let a2 = seq![n, s];
        assert(a2.drop_first() =~= seq![s]);
        let st2 = ArgScan { positional: seq![n], ..empty };
        assert(empty.positional.push(n) =~= seq![n]);
        assert(st2.positional.push(s) =~= seq![n, s]);
        let st3 = ArgScan { positional: seq![n, s], ..empty };
        assert(scan_args(seq![s], st2) == scan_args(Seq::empty(), st3));
        assert(st3.positional.drop_first() =~= seq![s]);
        assert(st3.positional.drop_first().drop_first() =~= Seq::<Seq<char>>::empty());
    }
}

/// A usable server address starts with a scheme letter, so it is never read
/// as an option.
proof fn lemma_usable_server_is_not_an_option(s: Seq<char>)
    requires
        endpoints_for(s) is Some,
    ensures
        s.len() > 0,
        s[0] != '-',
{
    lemma_trimmed_is_prefix(s);
    let t = crate::text::trim_end_char(s, '/');
    assert(t.len() > 0);
    assert(t[0] == s[0]);
    assert(t[0] == 'h' || t[0] == 'w');
}

/// Trimming trailing '/' keeps a prefix of the text.
proof fn lemma_trimmed_is_prefix(s: Seq<char>)
    ensures
        crate::text::trim_end_char(s, '/').len() <= s.len(),
        forall|i: int|
            0 <= i < crate::text::trim_end_char(s, '/').len() ==> #[trigger] crate::text::trim_end_char(
                s,
                '/',
            )[i] == s[i],
    decreases s.len(),
{
    if s.len() > 0 && s.last() == '/' {
        lemma_trimmed_is_prefix(s.drop_last());
    }
}

/// Why the program arguments were refused.
#[derive(Clone, Debug, PartialEq, Eq)]
pub enum ArgsError {
    MissingUsernameValue,
    MissingServerValue,
    UnknownOption(String),
    TooManyArguments,
    UsernameRequired,
    Server(EndpointError),
}

impl View for ArgsError {
    type V = ArgsFailure;

    open spec fn view(&self) -> ArgsFailure {
        match self {
            ArgsError::MissingUsernameValue => ArgsFailure::MissingUsernameValue,
            ArgsError::MissingServerValue => ArgsFailure::MissingServerValue,
            ArgsError::UnknownOption(a) => ArgsFailure::UnknownOption(a@),
            ArgsError::TooManyArguments => ArgsFailure::TooManyArguments,
            ArgsError::UsernameRequired => ArgsFailure::UsernameRequired,
            ArgsError::Server(_) => ArgsFailure::UnsupportedServer,
        }
    }
}

/// The text the client prints for refused arguments.
pub open spec fn args_error_text(f: ArgsFailure) -> Seq<char> {
    match f {
        ArgsFailure::MissingUsernameValue => "--username needs a value"@,
        ArgsFailure::MissingServerValue => "--server needs a value"@,
        ArgsFailure::UnknownOption(a) => "unknown option "@ + a,
        ArgsFailure::TooManyArguments => "too many arguments"@,
        ArgsFailure::UsernameRequired => "username is required"@,
        ArgsFailure::UnsupportedServer => "server must start with http://, https://, ws://, or wss://"@,
    }
}

impl ArgsError {
    /// The text the client prints for the error.
    pub fn message(&self) -> (r: String)
        ensures
            r@ == args_error_text(self@),
    {
        match self {
            ArgsError::MissingUsernameValue => String::from_str("--username needs a value"),
            ArgsError::MissingServerValue => String::from_str("--server needs a value"),
            ArgsError::UnknownOption(a) => {
                let mut m = String::from_str("unknown option ");
                m.append(a.as_str());
                m
            },
            ArgsError::TooManyArguments => String::from_str("too many arguments"),
            ArgsError::UsernameRequired => String::from_str("username is required"),
            ArgsError::Server(e) => e.message(),
        }
    }
}

/// The texts of the arguments.
pub open spec fn args_text(args: Seq<String>) -> Seq<Seq<char>> {
    args.map_values(|a: String| a@)
}

/// The collected state, as texts.
pub open spec fn scan_view(name: Option<String>, server: Option<String>, positional: Seq<String>) -> ArgScan {
    ArgScan {
        name: crate::endpoints::option_text(name),
        server: crate::endpoints::option_text(server),
        positional: args_text(positional),
    }
}

/// Reads the program arguments (without the program name): `Ok(None)` asks
/// for the usage to be printed, `Ok(Some(..))` gives the username and the
/// relay to use.
pub fn read_args(args: Vec<String>) -> (r: Result<Option<(String, ServerEndpoints)>, ArgsError>)
    ensures
        match args_outcome(args_text(args@)) {
            ArgsOutcome::Help => r matches Ok(None),
            ArgsOutcome::Failed(f) => r matches Err(e) && e@ == f,
            ArgsOutcome::Run { name, server } => r matches Ok(Some((n, e))) && n@ == name
                && endpoints_for(server_or_default(server)) == Some(e@),
        },
{
    let ghost all = args_text(args@);
    let mut name: Option<String> = None;
    let mut server: Option<String> = None;
    let mut positional: Vec<String> = Vec::new();
    let mut i: usize = 0;
    assert(all.skip(0) =~= all);
    assert(args_text(positional@) =~= Seq::<Seq<char>>::empty());
    while i < args.len()
        invariant
            i <= args@.len(),
            all == args_text(args@),
            scan_args(all, ArgScan { name: None, server: None, positional: Seq::empty() })
                == scan_args(all.skip(i as int), scan_view(name, server, positional@)),
        decreases args@.len() - i,
    {
        let arg = args[i].as_str();
        let ghost rest = all.skip(i as int);
        assert(rest[0] == arg@);
        assert(rest.drop_first() =~= all.skip(i + 1));
        if same_text(arg, "--help") || same_text(arg, "-h") {
            return Ok(None);
        }
        if same_text(arg, "--username") || same_text(arg, "-u") {
            if i + 1 >= args.len() {
                return Err(ArgsError::MissingUsernameValue);
            }
            assert(rest.drop_first()[0] == args@[i + 1]@);
            assert(rest.drop_first().drop_first() =~= all.skip(i + 2));
            name = Some(args[i + 1].clone());
            i += 2;
        } else if same_text(arg, "--server") || same_text(arg, "-s") {
            if i + 1 >= args.len() {
                return Err(ArgsError::MissingServerValue);
            }
            assert(rest.drop_first()[0] == args@[i + 1]@);
            assert(rest.drop_first().drop_first() =~= all.skip(i + 2));
            server = Some(args[i + 1].clone());
            i += 2;
        } else if arg.unicode_len() > 0 && arg.get_char(0) == '-' {
            return Err(ArgsError::UnknownOption(String::from_str(arg)));
        } else {
            let ghost before = args_text(positional@);
            positional.push(args[i].clone());
            assert(args_text(positional@) =~= before.push(arg@));
            i += 1;
        }
    }
    assert(all.skip(i as int) =~= Seq::<Seq<char>>::empty());
    let ghost st = scan_view(name, server, positional@);
    if name.is_none() && positional.len() > 0 {
        let ghost before = args_text(positional@);
        name = Some(positional.remove(0));
        assert(args_text(positional@) =~= before.drop_first());
    }
    if server.is_none() && positional.len() > 0 {
        let ghost before = args_text(positional@);
        server = Some(positional.remove(0));
        assert(args_text(positional@) =~= before.drop_first());
    }
    if positional.len() > 0 {
        return Err(ArgsError::TooManyArguments);
    }
    let name = match name {
        Some(n) => n,
        None => return Err(ArgsError::UsernameRequired),
    };
    match ServerEndpoints::from_optional_arg(server) {
        Ok(e) => Ok(Some((name, e))),
        Err(e) => Err(ArgsError::Server(e)),
    }
}

/// Whether a decrypted message is addressed to `receiver_name`; a message
/// for someone else is dropped unread.
pub fn addressed_to(message: &PlaintextChatMessage, receiver_name: &str) -> (r: bool)
    ensures
        r == (message@.to == receiver_name@),
{
    same_text(message.to.as_str(), receiver_name)
}

/// Whether the encryption key that sealed a message is the one saved for its
/// sender; a message whose key differs is refused.
pub fn sender_key_matches(sender: &PublicKeyEntry, encrypted: &EncryptedChatMessage) -> (r: bool)
    ensures
        r == (sender@.encryption_public_key == encrypted@.sender_encryption_public_key),
{
    same_text(sender.encryption_public_key.as_str(), encrypted.sender_encryption_public_key.as_str())
}

} // verus!
