//! Unpacking archives with the tools of the system: which kind of archive a
//! file is, which tool unpacks or lists it, and with which arguments.

use crate::paths::{extension, extension_of, file_name, file_name_of};
use crate::text::{
    chars_of,
    ends_with,
    is_word,
    lowercase,
    lowercase_of,
    owned,
    push_str,
    string_of,
    strings,
};
use vstd::prelude::*;

verus! {

/// The kinds of archive that are told apart.
#[derive(Debug, Clone, Copy, PartialEq, Eq, Structural)]
pub enum ArchiveType {
    Zip,
    Tar,
    TarGz,
    TarBz2,
    TarXz,
    TarZst,
    SevenZip,
    Rar,
    Unknown,
}

/// The kind of archive that a file is, by its name and its extension, both
/// in lowercase. The double endings of compressed tar archives come first,
/// so that `.tar.gz` is no plain `.gz`.
pub open spec fn archive_kind(name: Seq<char>, ext: Seq<char>) -> ArchiveType {
    if ".tar.gz"@.is_suffix_of(name) {
        ArchiveType::TarGz
    } else if ".tar.bz2"@.is_suffix_of(name) {
        ArchiveType::TarBz2
    } else if ".tar.xz"@.is_suffix_of(name) {
        ArchiveType::TarXz
    } else if ".tar.zst"@.is_suffix_of(name) {
        ArchiveType::TarZst
    } else if ext == "tgz"@ {
        ArchiveType::TarGz
    } else if ext == "tbz2"@ {
        ArchiveType::TarBz2
    } else if ext == "txz"@ {
        ArchiveType::TarXz
    } else if ext == "zip"@ {
        ArchiveType::Zip
    } else if ext == "tar"@ {
        ArchiveType::Tar
    } else if ext == "7z"@ {
        ArchiveType::SevenZip
    } else if ext == "rar"@ {
        ArchiveType::Rar
    } else {
        ArchiveType::Unknown
    }
}

/// The text that `part` holds, or the empty text.
pub open spec fn text_or_empty(part: Option<Seq<char>>) -> Seq<char> {
    match part {
        Some(text) => text,
        None => Seq::empty(),
    }
}

/// A command and the arguments it starts with.
pub open spec fn command_view(command: Option<(&'static str, Vec<&'static str>)>) -> Option<
    (Seq<char>, Seq<Seq<char>>),
> {
    match command {
        Some((program, args)) => Some((program@, args@.map_values(|a: &'static str| a@))),
        None => None,
    }
}

/// The tool that unpacks an archive of the given kind, with the arguments it
/// starts with; none where the kind is not known.
pub open spec fn unpack_command(kind: ArchiveType) -> Option<(Seq<char>, Seq<Seq<char>>)> {
    match kind {
        ArchiveType::Zip => Some(("unzip"@, seq!["-q"@])),
        ArchiveType::Tar => Some(("tar"@, seq!["-xf"@])),
        ArchiveType::TarGz => Some(("tar"@, seq!["-xzf"@])),
        ArchiveType::TarBz2 => Some(("tar"@, seq!["-xjf"@])),
        ArchiveType::TarXz => Some(("tar"@, seq!["-xJf"@])),
        ArchiveType::TarZst => Some(("tar"@, seq!["--zstd"@, "-xf"@])),
        ArchiveType::SevenZip => Some(("7z"@, seq!["x"@])),
        ArchiveType::Rar => Some(("unrar"@, seq!["x"@])),
        ArchiveType::Unknown => None,
    }
}

/// The tool that lists what an archive of the given kind holds, with the
/// arguments it starts with; none where the kind is not known.
pub open spec fn list_command(kind: ArchiveType) -> Option<(Seq<char>, Seq<Seq<char>>)> {
    match kind {
        ArchiveType::Zip => Some(("unzip"@, seq!["-l"@])),
        ArchiveType::Tar => Some(("tar"@, seq!["-tf"@])),
        ArchiveType::TarGz => Some(("tar"@, seq!["-tzf"@])),
        ArchiveType::TarBz2 => Some(("tar"@, seq!["-tjf"@])),
        ArchiveType::TarXz => Some(("tar"@, seq!["-tJf"@])),
        ArchiveType::TarZst => Some(("tar"@, seq!["--zstd"@, "-tf"@])),
        ArchiveType::SevenZip => Some(("7z"@, seq!["l"@])),
        ArchiveType::Rar => Some(("unrar"@, seq!["l"@])),
        ArchiveType::Unknown => None,
    }
}

impl ArchiveType {
    /// The kind of archive that a file is, by its name and its extension,
    /// both in lowercase.
    pub fn classify(name: &str, ext: &str) -> (r: ArchiveType)
        ensures
            r == archive_kind(name@, ext@),
    {
        let n = chars_of(name);
        let e = chars_of(ext);
        let gz = chars_of(".tar.gz");
        let bz2 = chars_of(".tar.bz2");
        let xz = chars_of(".tar.xz");
        let zst = chars_of(".tar.zst");
        if ends_with(n.as_slice(), gz.as_slice()) {
            ArchiveType::TarGz
        } else if ends_with(n.as_slice(), bz2.as_slice()) {
            ArchiveType::TarBz2
        } else if ends_with(n.as_slice(), xz.as_slice()) {
            ArchiveType::TarXz
        } else if ends_with(n.as_slice(), zst.as_slice()) {
            ArchiveType::TarZst
        } else if is_word(e.as_slice(), "tgz") {
            ArchiveType::TarGz
        } else if is_word(e.as_slice(), "tbz2") {
            ArchiveType::TarBz2
        } else if is_word(e.as_slice(), "txz") {
            ArchiveType::TarXz
        } else if is_word(e.as_slice(), "zip") {
            ArchiveType::Zip
        } else if is_word(e.as_slice(), "tar") {
            ArchiveType::Tar
        } else if is_word(e.as_slice(), "7z") {
            ArchiveType::SevenZip
        } else if is_word(e.as_slice(), "rar") {
            ArchiveType::Rar
        } else {
            ArchiveType::Unknown
        }
    }

    /// The kind of archive that the file at `path` is: the kind that its
    /// file name and its extension give once both are put in lowercase; a
    /// part that the path lacks counts as empty.
    pub fn from_path(path: &str) -> (r: ArchiveType)
        ensures
            r == archive_kind(
                lowercase_of(text_or_empty(file_name_of(path@))),
                lowercase_of(text_or_empty(extension_of(path@))),
            ),
    {
        let ext = match extension(path) {
            Some(e) => e,
            None => String::new(),
        };
        let name = match file_name(path) {
            Some(n) => n,
            None => String::new(),
        };
        let lower_name = lowercase(name.as_str());
        let lower_ext = lowercase(ext.as_str());
        ArchiveType::classify(lower_name.as_str(), lower_ext.as_str())
    }

    /// The tool that unpacks an archive of this kind, with the arguments it
    /// starts with.
    pub fn get_command(&self) -> (r: Option<(&'static str, Vec<&'static str>)>)
        ensures
            command_view(r) == unpack_command(*self),
    {
        let r = match self {
            ArchiveType::Zip => Some(("unzip", vec!["-q"])),
            ArchiveType::Tar => Some(("tar", vec!["-xf"])),
            ArchiveType::TarGz => Some(("tar", vec!["-xzf"])),
            ArchiveType::TarBz2 => Some(("tar", vec!["-xjf"])),
            ArchiveType::TarXz => Some(("tar", vec!["-xJf"])),
            ArchiveType::TarZst => Some(("tar", vec!["--zstd", "-xf"])),
            ArchiveType::SevenZip => Some(("7z", vec!["x"])),
            ArchiveType::Rar => Some(("unrar", vec!["x"])),
            ArchiveType::Unknown => None,
        };
        proof {
            if let Some((program, got)) = command_view(r) {
                if let Some((tool, want)) = unpack_command(*self) {
                    assert(got =~= want);
                }
            }
        }
        r
    }

    /// The tool that lists what an archive of this kind holds, with the
    /// arguments it starts with.
    pub fn get_list_command(&self) -> (r: Option<(&'static str, Vec<&'static str>)>)
        ensures
            command_view(r) == list_command(*self),
    {
        let r = match self {
            ArchiveType::Zip => Some(("unzip", vec!["-l"])),
            ArchiveType::Tar => Some(("tar", vec!["-tf"])),
            ArchiveType::TarGz => Some(("tar", vec!["-tzf"])),
            ArchiveType::TarBz2 => Some(("tar", vec!["-tjf"])),
            ArchiveType::TarXz => Some(("tar", vec!["-tJf"])),
            ArchiveType::TarZst => Some(("tar", vec!["--zstd", "-tf"])),
            ArchiveType::SevenZip => Some(("7z", vec!["l"])),
            ArchiveType::Rar => Some(("unrar", vec!["l"])),
            ArchiveType::Unknown => None,
        };
        proof {
            if let Some((program, got)) = command_view(r) {
                if let Some((tool, want)) = list_command(*self) {
                    assert(got =~= want);
                }
            }
        }
        r
    }
}

/// What the command line asks for.
#[derive(Debug, Clone, PartialEq, Eq)]
pub struct Config {
    pub archive_path: String,
    pub destination: Option<String>,
    pub list_only: bool,
    pub force: bool,
    pub quiet: bool,
    pub keep: bool,
}

/// A `Config` with its texts taken as sequences of characters.
pub struct ConfigView {
    pub archive_path: Seq<char>,
    pub destination: Option<Seq<char>>,
    pub list_only: bool,
    pub force: bool,
    pub quiet: bool,
    pub keep: bool,
}

impl View for Config {
    type V = ConfigView;

    open spec fn view(&self) -> ConfigView {
        ConfigView {
            archive_path: self.archive_path@,
            destination: match self.destination {
                Some(d) => Some(d@),
                None => None,
            },
            list_only: self.list_only,
            force: self.force,
            quiet: self.quiet,
            keep: self.keep,
        }
    }
}

/// What a command line comes to: a request for the help text, or an archive
/// to work on.
#[derive(Debug, Clone, PartialEq, Eq)]
pub enum Invocation {
    Help,
    Run(Config),
}

/// An `Invocation` with its texts taken as sequences of characters.
pub enum InvocationView {
    Help,
    Run(ConfigView),
}

impl View for Invocation {
    type V = InvocationView;

    open spec fn view(&self) -> InvocationView {
        match self {
            Invocation::Help => InvocationView::Help,
            Invocation::Run(config) => InvocationView::Run(config@),
        }
    }
}

/// What the arguments from position `at` on come to, with `sofar` read of
/// those before. The first argument that is no option is the archive; each
/// later one is the destination, the last of them standing.
pub open spec fn parsed_from(args: Seq<Seq<char>>, at: int, sofar: ConfigView) -> Result<
    InvocationView,
    Seq<char>,
>
    decreases args.len() - at,
{
    if at < 0 || at >= args.len() {
        if sofar.archive_path.len() == 0 {
            Err("No archive specified"@)
        } else {
            Ok(InvocationView::Run(sofar))
        }
    } else {
        let arg = args[at];
        if arg == "-h"@ || arg == "--help"@ {
            Ok(InvocationView::Help)
        } else if arg == "-l"@ || arg == "--list"@ {
            parsed_from(args, at + 1, ConfigView { list_only: true, ..sofar })
        } else if arg == "-f"@ || arg == "--force"@ {
            parsed_from(args, at + 1, ConfigView { force: true, ..sofar })
        } else if arg == "-q"@ || arg == "--quiet"@ {
            parsed_from(args, at + 1, ConfigView { quiet: true, ..sofar })
        } else if arg == "-k"@ || arg == "--keep"@ {
            parsed_from(args, at + 1, ConfigView { keep: true, ..sofar })
        } else if sofar.archive_path.len() == 0 {
            parsed_from(args, at + 1, ConfigView { archive_path: arg, ..sofar })
        } else {
            parsed_from(args, at + 1, ConfigView { destination: Some(arg), ..sofar })
        }
    }
}

/// What a command line comes to. The first argument is the program's own
/// name and is not read.
pub open spec fn parsed_args(args: Seq<Seq<char>>) -> Result<InvocationView, Seq<char>> {
    parsed_from(
        args,
        1,
        ConfigView {
            archive_path: Seq::empty(),
            destination: None,
            list_only: false,
            force: false,
            quiet: false,
            keep: false,
        },
    )
}

/// A result with its texts taken as sequences of characters.
pub open spec fn parse_outcome(r: Result<Invocation, String>) -> Result<InvocationView, Seq<char>> {
    match r {
        Ok(i) => Ok(i@),
        Err(e) => Err(e@),
    }
}

/// Reads the command line.
pub fn parse_args(args: &Vec<String>) -> (r: Result<Invocation, String>)
    ensures
        parse_outcome(r) == parsed_args(strings(args@)),
{
    let mut config = Config {
        archive_path: String::new(),
        destination: None,
        list_only: false,
        force: false,
        quiet: false,
        keep: false,
    };
    let ghost all = strings(args@);
    let mut i: usize = 1;
    while i < args.len()
        invariant
            1 <= i,
            all == strings(args@),
            parsed_args(all) == parsed_from(all, i as int, config@),
        decreases args.len() - i,
    {
        let arg = chars_of(args[i].as_str());
        assert(arg@ == all[i as int]);
        if is_word(arg.as_slice(), "-h") || is_word(arg.as_slice(), "--help") {
            return Ok(Invocation::Help);
        } else if is_word(arg.as_slice(), "-l") || is_word(arg.as_slice(), "--list") {
            config.list_only = true;
        } else if is_word(arg.as_slice(), "-f") || is_word(arg.as_slice(), "--force") {
            config.force = true;
        } else if is_word(arg.as_slice(), "-q") || is_word(arg.as_slice(), "--quiet") {
            config.quiet = true;
        } else if is_word(arg.as_slice(), "-k") || is_word(arg.as_slice(), "--keep") {
            config.keep = true;
        } else {
            if config.archive_path.as_str().is_empty() {
                config.archive_path = args[i].clone();
            } else {
                config.destination = Some(args[i].clone());
            }
        }
        i += 1;
    }
    if config.archive_path.as_str().is_empty() {
        return Err(owned("No archive specified"));
    }
    Ok(Invocation::Run(config))
}

/// What is to be done to an archive, step by step: make the directory to
/// unpack into where one is named, run the tool there, show what it printed
/// unless kept quiet, and remove the archive unless it is kept.
#[derive(Debug, Clone, PartialEq, Eq)]
pub struct Plan {
    pub program: String,
    pub args: Vec<String>,
    pub directory: Option<String>,
    pub show_output: bool,
    pub remove_archive: bool,
}

/// A `Plan` with its texts taken as sequences of characters.
pub struct PlanView {
    pub program: Seq<char>,
    pub args: Seq<Seq<char>>,
    pub directory: Option<Seq<char>>,
    pub show_output: bool,
    pub remove_archive: bool,
}

impl View for Plan {
    type V = PlanView;

    open spec fn view(&self) -> PlanView {
        PlanView {
            program: self.program@,
            args: strings(self.args@),
            directory: match self.directory {
                Some(d) => Some(d@),
                None => None,
            },
            show_output: self.show_output,
            remove_archive: self.remove_archive,
        }
    }
}

/// The arguments that a tool takes for overwriting and for keeping quiet,
/// in the order in which it is given them.
pub open spec fn tool_flags(program: Seq<char>, force: bool, quiet: bool) -> Seq<Seq<char>> {
    if program == "unzip"@ {
        (if force {
            seq!["-o"@]
        } else {
            seq![]
        }) + (if quiet {
            seq!["-qq"@]
        } else {
            seq![]
        })
    } else if program == "7z"@ {
        (if quiet {
            seq!["-bd"@]
        } else {
            seq![]
        }) + (if force {
            seq!["-y"@]
        } else {
            seq![]
        })
    } else if program == "unrar"@ {
        (if force {
            seq!["-o+"@]
        } else {
            seq![]
        }) + (if quiet {
            seq!["-inul"@]
        } else {
            seq![]
        })
    } else {
        seq![]
    }
}

/// What is to be done to an archive of the given kind: the tool for listing
/// or unpacking, its first arguments, its flags, and the archive last. There
/// is nothing to be done to an archive of unknown kind.
pub open spec fn planned(kind: ArchiveType, config: ConfigView) -> Result<PlanView, Seq<char>> {
    let command = if config.list_only {
        list_command(kind)
    } else {
        unpack_command(kind)
    };
    match command {
        None => Err("Unsupported archive format"@),
        Some((program, first)) => Ok(
            PlanView {
                program,
                args: first + tool_flags(program, config.force, config.quiet) + seq![
                    config.archive_path,
                ],
                directory: if config.list_only {
                    None
                } else {
                    config.destination
                },
                show_output: !config.quiet,
                remove_archive: !config.keep && !config.list_only,
            },
        ),
    }
}

/// A result with its texts taken as sequences of characters.
pub open spec fn plan_outcome(r: Result<Plan, String>) -> Result<PlanView, Seq<char>> {
    match r {
        Ok(plan) => Ok(plan@),
        Err(e) => Err(e@),
    }
}

/// Plans what is to be done to an archive of the given kind.
pub fn plan_for(kind: ArchiveType, config: &Config) -> (r: Result<Plan, String>)
    ensures
        plan_outcome(r) == planned(kind, config@),
{
    let command = if config.list_only {
        kind.get_list_command()
    } else {
        kind.get_command()
    };
    let (program, first) = match command {
        Some(c) => c,
        None => {
            return Err(owned("Unsupported archive format"));
        },
    };
    let mut args: Vec<String> = Vec::new();
    let mut i: usize = 0;
    let ghost first_texts = first@.map_values(|a: &'static str| a@);
    while i < first.len()
        invariant
            i <= first.len(),
            first_texts == first@.map_values(|a: &'static str| a@),
            strings(args@) == first_texts.take(i as int),
        decreases first.len() - i,
    {
        let ghost before = strings(args@);
        args.push(owned(first[i]));
        assert(strings(args@) == before.push(first@[i as int]@));
        i += 1;
    }
    assert(strings(args@) == first_texts);
    let name = chars_of(program);
    let ghost flags = tool_flags(program@, config.force, config.quiet);
    if is_word(name.as_slice(), "unzip") {
        if config.force {
            push_text(&mut args, "-o");
        }
        if config.quiet {
            push_text(&mut args, "-qq");
        }
    } else if is_word(name.as_slice(), "7z") {
        if config.quiet {
            push_text(&mut args, "-bd");
        }
        if config.force {
            push_text(&mut args, "-y");
        }
    } else if is_word(name.as_slice(), "unrar") {
        if config.force {
            push_text(&mut args, "-o+");
        }
        if config.quiet {
            push_text(&mut args, "-inul");
        }
    }
    assert(strings(args@) == first_texts + flags);
    let ghost before = strings(args@);
    args.push(config.archive_path.clone());
    assert(strings(args@) == before.push(config.archive_path@));
    assert(strings(args@) == first_texts + flags + seq![config.archive_path@]);
    let directory = if config.list_only {
        None
    } else {
        match &config.destination {
            Some(d) => Some(d.clone()),
            None => None,
        }
    };
    Ok(
        Plan {
            program: owned(program),
            args,
            directory,
            show_output: !config.quiet,
            remove_archive: !config.keep && !config.list_only,
        },
    )
}

/// Plans what is to be done to the archive that `config` names, whose kind
/// its path tells.
pub fn plan_extraction(config: &Config) -> (r: Result<Plan, String>)
    ensures
        plan_outcome(r) == planned(
            archive_kind(
                lowercase_of(text_or_empty(file_name_of(config.archive_path@))),
                lowercase_of(text_or_empty(extension_of(config.archive_path@))),
            ),
            config@,
        ),
{
    let kind = ArchiveType::from_path(config.archive_path.as_str());
    plan_for(kind, config)
}

fn push_text(list: &mut Vec<String>, text: &str)
    ensures
        strings(final(list)@) == strings(old(list)@).push(text@),
{
    let ghost before = strings(list@);
    list.push(owned(text));
    assert(strings(list@) == before.push(text@));
}

/// The complaint that the tool `program` is not installed.
pub fn missing_tool_message(program: &str) -> (r: String)
    ensures
        r@ == "Required command '"@ + program@ + "' not found"@,
{
    let mut out: Vec<char> = Vec::new();
    push_str(&mut out, "Required command '");
    push_str(&mut out, program);
    push_str(&mut out, "' not found");
    string_of(out.as_slice())
}

/// A complaint made of what went wrong, a colon, and the reason given.
pub fn failure_message(what: &str, reason: &str) -> (r: String)
    ensures
        r@ == what@ + ": "@ + reason@,
{
    let mut out: Vec<char> = Vec::new();
    push_str(&mut out, what);
    push_str(&mut out, ": ");
    push_str(&mut out, reason);
    string_of(out.as_slice())
}

/// Whether success is announced at the end: not when kept quiet, and not
/// after a mere listing.
pub fn announces_success(config: &Config) -> (r: bool)
    ensures
        r == (!config.quiet && !config.list_only),
{
    !config.quiet && !config.list_only
}

} // verus!
