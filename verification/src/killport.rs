//! Ending the processes that listen on given ports: the command line, what
//! the listing of sockets says, and the words to the user.

use crate::decimal::{decimal_text, parse_u16, parse_u32, push_decimal, unsigned_value};
use crate::text::{
    chars_of,
    contains,
    fields,
    has_part,
    is_word,
    lines,
    lines_of,
    owned,
    push_str,
    split,
    starts_with,
    string_of,
    strings,
    texts,
    trimmed,
    trimmed_of,
    words,
    words_of,
};
use vstd::prelude::*;

verus! {

/// What the command line asks for.
#[derive(Debug, Clone, PartialEq, Eq)]
pub struct Config {
    pub ports: Vec<u16>,
    pub force: bool,
    pub list_only: bool,
    pub verbose: bool,
    pub quiet: bool,
}

/// A `Config` with its ports taken as a sequence.
pub struct ConfigView {
    pub ports: Seq<u16>,
    pub force: bool,
    pub list_only: bool,
    pub verbose: bool,
    pub quiet: bool,
}

impl View for Config {
    type V = ConfigView;

    open spec fn view(&self) -> ConfigView {
        ConfigView {
            ports: self.ports@,
            force: self.force,
            list_only: self.list_only,
            verbose: self.verbose,
            quiet: self.quiet,
        }
    }
}

/// What a command line comes to: a request for the help text, or ports to
/// work on.
#[derive(Debug, Clone, PartialEq, Eq)]
pub enum Invocation {
    Help,
    Run(Config),
}

/// An `Invocation` with its ports taken as a sequence.
pub enum InvocationView {
    Help,
    Run(ConfigView),
}

impl View for Invocation {
    type V = InvocationView;

    open spec fn view(&self) -> InvocationView {
        match self {
            Invocation::Help => InvocationView::Help,
            Invocation::Run(config) => InvocationView::Run(config@),
        }
    }
}

/// What is wrong with a command line.
#[derive(Debug, Clone, PartialEq, Eq)]
pub enum ArgsError {
    /// An argument that is no option writes no port.
    InvalidPort(String),
    /// No port is given.
    NoPorts,
}

/// An `ArgsError` with its text taken as a sequence of characters.
pub enum ArgsErrorView {
    InvalidPort(Seq<char>),
    NoPorts,
}

impl View for ArgsError {
    type V = ArgsErrorView;

    open spec fn view(&self) -> ArgsErrorView {
        match self {
            ArgsError::InvalidPort(arg) => ArgsErrorView::InvalidPort(arg@),
            ArgsError::NoPorts => ArgsErrorView::NoPorts,
        }
    }
}

impl ArgsError {
    /// The message that tells of the error.
    pub fn message(&self) -> (r: String)
        ensures
            r@ == (match self@ {
                ArgsErrorView::InvalidPort(arg) => "Invalid port number: "@ + arg,
                ArgsErrorView::NoPorts => "No ports specified"@,
            }),
    {
        match self {
            ArgsError::InvalidPort(arg) => {
                let mut out: Vec<char> = Vec::new();
                push_str(&mut out, "Invalid port number: ");
                push_str(&mut out, arg.as_str());
                string_of(out.as_slice())
            },
            ArgsError::NoPorts => owned("No ports specified"),
        }
    }

    /// Whether the user is pointed to the help text after the message: only
    /// where no port was given.
    pub fn points_to_help(&self) -> (r: bool)
        ensures
            r == (self@ is NoPorts),
    {
        match self {
            ArgsError::InvalidPort(_) => false,
            ArgsError::NoPorts => true,
        }
    }
}

/// What the arguments from position `at` on come to, with `sofar` read of
/// those before. Every argument that is no option must write a port, a
/// number up to 65535, and at least one port must be given.
pub open spec fn parsed_from(args: Seq<Seq<char>>, at: int, sofar: ConfigView) -> Result<
    InvocationView,
    ArgsErrorView,
>
    decreases args.len() - at,
{
    if at < 0 || at >= args.len() {
        if sofar.ports.len() == 0 {
            Err(ArgsErrorView::NoPorts)
        } else {
            Ok(InvocationView::Run(sofar))
        }
    } else {
        let arg = args[at];
        if arg == "-h"@ || arg == "--help"@ {
            Ok(InvocationView::Help)
        } else if arg == "-f"@ || arg == "--force"@ {
            parsed_from(args, at + 1, ConfigView { force: true, ..sofar })
        } else if arg == "-l"@ || arg == "--list"@ {
            parsed_from(args, at + 1, ConfigView { list_only: true, ..sofar })
        } else if arg == "-v"@ || arg == "--verbose"@ {
            parsed_from(args, at + 1, ConfigView { verbose: true, ..sofar })
        } else if arg == "-q"@ || arg == "--quiet"@ {
            parsed_from(args, at + 1, ConfigView { quiet: true, ..sofar })
        } else {
            match unsigned_value(arg, u16::MAX as int) {
                Some(port) => parsed_from(
                    args,
                    at + 1,
                    ConfigView { ports: sofar.ports.push(port as u16), ..sofar },
                ),
                None => Err(ArgsErrorView::InvalidPort(arg)),
            }
        }
    }
}

/// What a command line comes to. The first argument is the program's own
/// name and is not read.
pub open spec fn parsed_args(args: Seq<Seq<char>>) -> Result<InvocationView, ArgsErrorView> {
    parsed_from(
        args,
        1,
        ConfigView {
            ports: Seq::empty(),
            force: false,
            list_only: false,
            verbose: false,
            quiet: false,
        },
    )
}

/// A result with its texts taken as sequences of characters.
pub open spec fn parse_outcome(r: Result<Invocation, ArgsError>) -> Result<
    InvocationView,
    ArgsErrorView,
> {
    match r {
        Ok(i) => Ok(i@),
        Err(e) => Err(e@),
    }
}

/// Reads the command line.
pub fn parse_args(args: &Vec<String>) -> (r: Result<Invocation, ArgsError>)
    ensures
        parse_outcome(r) == parsed_args(strings(args@)),
{
    let mut config = Config {
        ports: Vec::new(),
        force: false,
        list_only: false,
        verbose: false,
        quiet: false,
    };
    let ghost all = strings(args@);
    let mut i: usize = 1;
    while i < args.len()
        invariant
            1 <= i,
            all == strings(args@),
            parsed_args(all) == parsed_from(all, i as int, config@),
        decreases args.len() - i,
    {
        let arg = chars_of(args[i].as_str());
        assert(arg@ == all[i as int]);
        if is_word(arg.as_slice(), "-h") || is_word(arg.as_slice(), "--help") {
            return Ok(Invocation::Help);
        } else if is_word(arg.as_slice(), "-f") || is_word(arg.as_slice(), "--force") {
            config.force = true;
        } else if is_word(arg.as_slice(), "-l") || is_word(arg.as_slice(), "--list") {
            config.list_only = true;
        } else if is_word(arg.as_slice(), "-v") || is_word(arg.as_slice(), "--verbose") {
            config.verbose = true;
        } else if is_word(arg.as_slice(), "-q") || is_word(arg.as_slice(), "--quiet") {
            config.quiet = true;
        } else {
            match parse_u16(arg.as_slice()) {
                Some(port) => {
                    config.ports.push(port);
                },
                None => {
                    return Err(ArgsError::InvalidPort(args[i].clone()));
                },
            }
        }
        i += 1;
    }
    if config.ports.len() == 0 {
        return Err(ArgsError::NoPorts);
    }
    Ok(Invocation::Run(config))
}

/// Whether one of the ports lies below 1024, where only the superuser may
/// listen.
pub open spec fn has_low_port(ports: Seq<u16>) -> bool {
    exists|i: int| 0 <= i < ports.len() && ports[i] < 1024
}

/// Whether one of the ports lies below 1024.
pub fn needs_root(ports: &Vec<u16>) -> (r: bool)
    ensures
        r == has_low_port(ports@),
{
    let mut i: usize = 0;
    while i < ports.len()
        invariant
            i <= ports.len(),
            forall|k: int| 0 <= k < i ==> ports@[k] >= 1024,
        decreases ports.len() - i,
    {
        if ports[i] < 1024 {
            return true;
        }
        i += 1;
    }
    false
}

/// Whether the work is refused for want of the superuser's rights: a low
/// port is asked for, the user is not the superuser, and more than a listing
/// is wanted.
pub fn root_missing(config: &Config, is_root: bool) -> (r: bool)
    ensures
        r == (has_low_port(config.ports@) && !is_root && !config.list_only),
{
    needs_root(&config.ports) && !is_root && !config.list_only
}

/// Whether the answer of `id -u` names the superuser: it is `0` once the
/// whitespace around it is taken off.
pub fn is_root_id(trimmed_answer: &str) -> (r: bool)
    ensures
        r == (trimmed_answer@ == "0"@),
{
    let t = chars_of(trimmed_answer);
    is_word(t.as_slice(), "0")
}

/// Whether the answer of `id -u` names the superuser.
pub fn is_root_answer(answer: &str) -> (r: bool)
    ensures
        r == (trimmed_of(answer@) == "0"@),
{
    is_root_id(trimmed(answer))
}

/// A listening socket, as the listing of sockets shows it.
#[derive(Debug, Clone, PartialEq, Eq)]
pub struct Socket {
    pub pid: u32,
    pub protocol: String,
    pub state: String,
}

/// A `Socket` with its texts taken as sequences of characters.
pub struct SocketView {
    pub pid: int,
    pub protocol: Seq<char>,
    pub state: Seq<char>,
}

impl View for Socket {
    type V = SocketView;

    open spec fn view(&self) -> SocketView {
        SocketView { pid: self.pid as int, protocol: self.protocol@, state: self.state@ }
    }
}

/// The first of `pieces` that begins with `pid=`.
pub open spec fn pid_piece(pieces: Seq<Seq<char>>) -> Option<Seq<char>>
    decreases pieces.len(),
{
    if pieces.len() == 0 {
        None
    } else if "pid="@.is_prefix_of(pieces[0]) {
        Some(pieces[0])
    } else {
        pid_piece(pieces.skip(1))
    }
}

/// The process id that a field such as `users:(("name",pid=12,fd=3))` names:
/// of its pieces between commas, the first that begins with `pid=` counts,
/// and in it what stands between the first `=` and the next must write a
/// number of 32 bits.
pub open spec fn pid_of(field: Seq<char>) -> Option<int> {
    match pid_piece(fields(field, ',')) {
        Some(piece) => {
            let sides = fields(piece, '=');
            if sides.len() > 1 {
                unsigned_value(sides[1], u32::MAX as int)
            } else {
                None
            }
        },
        None => None,
    }
}

/// The socket that a line of the listing shows, given as its fields, where
/// it is one on `port`: the line has six fields or more, its fourth field
/// holds a colon and the port's number after it, and its last field names a
/// process id. The first two fields are taken as the protocol and the state.
/// A port's number counts as held where it begins a longer number too.
pub open spec fn socket_in(row: Seq<Seq<char>>, port: u16) -> Option<SocketView> {
    if row.len() >= 6 && has_part(row[3], ":"@ + decimal_text(port as nat)) {
        match pid_of(row.last()) {
            Some(pid) => Some(SocketView { pid, protocol: row[0], state: row[1] }),
            None => None,
        }
    } else {
        None
    }
}

/// A socket, or none, with its texts taken as sequences of characters.
pub open spec fn socket_view(socket: Option<Socket>) -> Option<SocketView> {
    match socket {
        Some(s) => Some(s@),
        None => None,
    }
}

fn find_pid(field: &[char]) -> (r: Option<u32>)
    ensures
        r matches Some(pid) ==> pid_of(field@) == Some(pid as int),
        r is None ==> pid_of(field@) is None,
{
    let pieces = split(field, ',');
    let prefix = chars_of("pid=");
    let ghost all = texts(pieces@);
    let mut i: usize = 0;
    assert(all.skip(0) == all);
    while i < pieces.len()
        invariant
            i <= pieces.len(),
            all == texts(pieces@),
            prefix@ == "pid="@,
            all == fields(field@, ','),
            pid_piece(all) == pid_piece(all.skip(i as int)),
        decreases pieces.len() - i,
    {
        assert(all.skip(i as int)[0] == pieces[i as int]@);
        if starts_with(pieces[i].as_slice(), prefix.as_slice()) {
            let sides = split(pieces[i].as_slice(), '=');
            assert(texts(sides@).len() == sides.len());
            if sides.len() > 1 {
                assert(texts(sides@)[1] == sides[1]@);
                return parse_u32(sides[1].as_slice());
            } else {
                return None;
            }
        }
        assert(all.skip(i as int).skip(1) == all.skip(i as int + 1));
        i += 1;
    }
    None
}

/// The socket that a line of the listing shows, given as its fields, where
/// it is one on `port`.
pub fn socket_of(row: &Vec<String>, port: u16) -> (r: Option<Socket>)
    ensures
        socket_view(r) == socket_in(strings(row@), port),
{
    if row.len() < 6 {
        return None;
    }
    let ghost all = strings(row@);
    assert(all[0] == row[0]@ && all[1] == row[1]@ && all[3] == row[3]@);
    assert(all.last() == row[row.len() - 1]@);
    let address = chars_of(row[3].as_str());
    let mut wanted: Vec<char> = Vec::new();
    push_str(&mut wanted, ":");
    push_decimal(&mut wanted, port as u64);
    if !contains(address.as_slice(), wanted.as_slice()) {
        return None;
    }
    let last = chars_of(row[row.len() - 1].as_str());
    match find_pid(last.as_slice()) {
        Some(pid) => Some(Socket { pid, protocol: row[0].clone(), state: row[1].clone() }),
        None => None,
    }
}

/// The socket that a line of the listing shows, where it is one on `port`.
/// The fields of a line are what stands between its runs of whitespace.
pub fn socket_on_line(line: &str, port: u16) -> (r: Option<Socket>)
    ensures
        socket_view(r) == socket_in(words_of(line@), port),
{
    let row = words(line);
    socket_of(&row, port)
}

/// The sockets on `port` that the first `count` of `rows` show, in order;
/// the first line of a listing is its heading and shows none.
pub open spec fn sockets_in(rows: Seq<Seq<char>>, port: u16, count: int) -> Seq<SocketView>
    decreases count,
{
    if count <= 1 {
        Seq::empty()
    } else {
        match socket_in(words_of(rows[count - 1]), port) {
            Some(socket) => sockets_in(rows, port, count - 1).push(socket),
            None => sockets_in(rows, port, count - 1),
        }
    }
}

/// The sockets of a list, with their texts taken as sequences of characters.
pub open spec fn socket_views(list: Seq<Socket>) -> Seq<SocketView> {
    list.map_values(|s: Socket| s@)
}

/// The sockets on `port` that the lines of a listing show, in order.
pub fn sockets_of_lines(rows: &Vec<String>, port: u16) -> (r: Vec<Socket>)
    ensures
        socket_views(r@) == sockets_in(strings(rows@), port, rows.len() as int),
{
    let mut found: Vec<Socket> = Vec::new();
    let ghost all = strings(rows@);
    let mut i: usize = 1;
    if rows.len() <= 1 {
        assert(socket_views(found@) =~= Seq::<SocketView>::empty());
        return found;
    }
    assert(socket_views(found@) =~= Seq::<SocketView>::empty());
    while i < rows.len()
        invariant
            1 <= i <= rows.len(),
            all == strings(rows@),
            socket_views(found@) == sockets_in(all, port, i as int),
        decreases rows.len() - i,
    {
        assert(all[i as int] == rows[i as int]@);
        let ghost before = socket_views(found@);
        match socket_on_line(rows[i].as_str(), port) {
            Some(socket) => {
                found.push(socket);
                assert(socket_views(found@) == before.push(socket@));
            },
            None => {},
        }
        i += 1;
    }
    found
}

/// The sockets on `port` that a listing shows, in order.
pub fn sockets_of(listing: &str, port: u16) -> (r: Vec<Socket>)
    ensures
        socket_views(r@) == sockets_in(lines_of(listing@), port, lines_of(listing@).len() as int),
{
    let rows = lines(listing);
    assert(strings(rows@).len() == rows.len());
    sockets_of_lines(&rows, port)
}

/// A process that listens on a port.
#[derive(Debug, Clone, PartialEq, Eq)]
pub struct ProcessInfo {
    pub pid: u32,
    pub name: String,
    pub user: String,
    pub protocol: String,
    pub state: String,
}

/// A `ProcessInfo` with its texts taken as sequences of characters.
pub struct ProcessView {
    pub pid: int,
    pub name: Seq<char>,
    pub user: Seq<char>,
    pub protocol: Seq<char>,
    pub state: Seq<char>,
}

impl View for ProcessInfo {
    type V = ProcessView;

    open spec fn view(&self) -> ProcessView {
        ProcessView {
            pid: self.pid as int,
            name: self.name@,
            user: self.user@,
            protocol: self.protocol@,
            state: self.state@,
        }
    }
}

/// The process behind a socket, where the answer about it, given as its
/// fields, names it: the first two fields are its name and its user.
pub open spec fn process_in(socket: SocketView, answer: Seq<Seq<char>>) -> Option<ProcessView> {
    if answer.len() >= 2 {
        Some(
            ProcessView {
                pid: socket.pid,
                name: answer[0],
                user: answer[1],
                protocol: socket.protocol,
                state: socket.state,
            },
        )
    } else {
        None
    }
}

/// A process, or none, with its texts taken as sequences of characters.
pub open spec fn process_view(process: Option<ProcessInfo>) -> Option<ProcessView> {
    match process {
        Some(p) => Some(p@),
        None => None,
    }
}

/// The process behind a socket, where the answer about it, given as its
/// fields, names it.
pub fn process_of(socket: &Socket, answer: &Vec<String>) -> (r: Option<ProcessInfo>)
    ensures
        process_view(r) == process_in(socket@, strings(answer@)),
{
    if answer.len() >= 2 {
        assert(strings(answer@)[0] == answer[0]@ && strings(answer@)[1] == answer[1]@);
        Some(
            ProcessInfo {
                pid: socket.pid,
                name: answer[0].clone(),
                user: answer[1].clone(),
                protocol: socket.protocol.clone(),
                state: socket.state.clone(),
            },
        )
    } else {
        None
    }
}

/// The process behind a socket, where the answer about it names it. The
/// fields of the answer are what stands between its runs of whitespace.
pub fn process_from_answer(socket: &Socket, answer: &str) -> (r: Option<ProcessInfo>)
    ensures
        process_view(r) == process_in(socket@, words_of(answer@)),
{
    let row = words(answer);
    process_of(socket, &row)
}

/// The arguments with which `ps` is asked for the name and the user of a
/// process.
pub fn ps_args(pid: u32) -> (r: Vec<String>)
    ensures
        strings(r@) == seq!["-p"@, decimal_text(pid as nat), "-o"@, "comm=,user="@],
{
    let mut number: Vec<char> = Vec::new();
    push_decimal(&mut number, pid as u64);
    let mut r: Vec<String> = Vec::new();
    r.push(owned("-p"));
    r.push(string_of(number.as_slice()));
    r.push(owned("-o"));
    r.push(owned("comm=,user="));
    assert(strings(r@) =~= seq!["-p"@, decimal_text(pid as nat), "-o"@, "comm=,user="@]);
    r
}

/// The arguments with which `kill` is asked to end a process: signal 9
/// where it is to be forced, else signal 15.
pub fn kill_args(pid: u32, force: bool) -> (r: Vec<String>)
    ensures
        strings(r@) == seq![
            if force {
                "-9"@
            } else {
                "-15"@
            },
            decimal_text(pid as nat),
        ],
{
    let mut number: Vec<char> = Vec::new();
    push_decimal(&mut number, pid as u64);
    let mut r: Vec<String> = Vec::new();
    if force {
        r.push(owned("-9"));
    } else {
        r.push(owned("-15"));
    }
    r.push(string_of(number.as_slice()));
    assert(strings(r@) =~= seq![
        if force {
            "-9"@
        } else {
            "-15"@
        },
        decimal_text(pid as nat),
    ]);
    r
}

/// What is shown of a process on `port`: one line, or all that is known of
/// it on lines of its own where much is asked for.
pub open spec fn info_text(process: ProcessView, port: u16, verbose: bool) -> Seq<char> {
    if verbose {
        "Port "@ + decimal_text(port as nat) + " ("@ + process.protocol + "):\n  PID:      "@
            + decimal_text(process.pid as nat) + "\n  Name:     "@ + process.name
            + "\n  User:     "@ + process.user + "\n  State:    "@ + process.state + "\n\n"@
    } else {
        "Port "@ + decimal_text(port as nat) + ": "@ + process.name + " (PID: "@ + decimal_text(
            process.pid as nat,
        ) + ", User: "@ + process.user + ")\n"@
    }
}

/// What is shown of a process on `port`.
pub fn process_info_text(process: &ProcessInfo, port: u16, verbose: bool) -> (r: String)
    ensures
        r@ == info_text(process@, port, verbose),
{
    let mut out: Vec<char> = Vec::new();
    push_str(&mut out, "Port ");
    push_decimal(&mut out, port as u64);
    if verbose {
        push_str(&mut out, " (");
        push_str(&mut out, process.protocol.as_str());
        push_str(&mut out, "):\n  PID:      ");
        push_decimal(&mut out, process.pid as u64);
        push_str(&mut out, "\n  Name:     ");
        push_str(&mut out, process.name.as_str());
        push_str(&mut out, "\n  User:     ");
        push_str(&mut out, process.user.as_str());
        push_str(&mut out, "\n  State:    ");
        push_str(&mut out, process.state.as_str());
        push_str(&mut out, "\n\n");
    } else {
        push_str(&mut out, ": ");
        push_str(&mut out, process.name.as_str());
        push_str(&mut out, " (PID: ");
        push_decimal(&mut out, process.pid as u64);
        push_str(&mut out, ", User: ");
        push_str(&mut out, process.user.as_str());
        push_str(&mut out, ")\n");
    }
    string_of(out.as_slice())
}

/// What is said of the attempt to end a process, after it succeeded or
/// failed.
pub open spec fn outcome_text(process: ProcessView, ended: bool) -> Seq<char> {
    (if ended {
        "Successfully terminated process "@
    } else {
        "Failed to terminate process "@
    }) + process.name + " (PID: "@ + decimal_text(process.pid as nat) + ")"@
}

/// What is said of the attempt to end a process.
pub fn outcome_message(process: &ProcessInfo, ended: bool) -> (r: String)
    ensures
        r@ == outcome_text(process@, ended),
{
    let mut out: Vec<char> = Vec::new();
    if ended {
        push_str(&mut out, "Successfully terminated process ");
    } else {
        push_str(&mut out, "Failed to terminate process ");
    }
    push_str(&mut out, process.name.as_str());
    push_str(&mut out, " (PID: ");
    push_decimal(&mut out, process.pid as u64);
    push_str(&mut out, ")");
    string_of(out.as_slice())
}

} // verus!
