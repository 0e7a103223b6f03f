//! Showing a directory as a tree: which entries are shown, how a line of the
//! tree is drawn, how sizes are written, and what is counted on the way.

use crate::decimal::{decimal_text, parse_usize, push_decimal, unsigned_value};
use crate::text::{
    chars_of,
    contains,
    ends_with,
    has_part,
    is_word,
    owned,
    push_str,
    starts_with,
    string_of,
    strings,
};
use vstd::arithmetic::div_mod::lemma_div_denominator;
use vstd::prelude::*;
use vstd::slice::slice_subrange;

verus! {

/// How a size is to be shown.
#[derive(Debug, Clone, PartialEq, Eq)]
pub enum SizeText {
    /// The text itself.
    Plain(String),
    /// The number `size / divisor`, to be written with one digit after the
    /// point, then a space and `unit`.
    Scaled { size: u64, divisor: u64, unit: String },
}

/// A `SizeText` with its texts taken as sequences of characters.
pub enum SizeShown {
    Plain(Seq<char>),
    Scaled { size: int, divisor: int, unit: Seq<char> },
}

impl View for SizeText {
    type V = SizeShown;

    open spec fn view(&self) -> SizeShown {
        match self {
            SizeText::Plain(text) => SizeShown::Plain(text@),
            SizeText::Scaled { size, divisor, unit } => SizeShown::Scaled {
                size: *size as int,
                divisor: *divisor as int,
                unit: unit@,
            },
        }
    }
}

/// The number of bytes in the unit of the given rank: 1024 to the power of
/// the rank, for ranks 0 to 5.
pub open spec fn unit_bytes(rank: int) -> int {
    if rank <= 0 {
        1
    } else if rank == 1 {
        1024
    } else if rank == 2 {
        1048576
    } else if rank == 3 {
        1073741824
    } else if rank == 4 {
        1099511627776
    } else {
        1125899906842624
    }
}

/// The name of the unit of the given rank.
pub open spec fn unit_name(rank: int) -> Seq<char> {
    if rank <= 0 {
        "B"@
    } else if rank == 1 {
        "KB"@
    } else if rank == 2 {
        "MB"@
    } else if rank == 3 {
        "GB"@
    } else if rank == 4 {
        "TB"@
    } else {
        "PB"@
    }
}

/// The rank of the unit in which `size` is shown: the largest, up to rank 5,
/// of which `size` holds at least one.
pub open spec fn unit_rank(size: int) -> int {
    if size < 1024 {
        0
    } else if size < 1048576 {
        1
    } else if size < 1073741824 {
        2
    } else if size < 1099511627776 {
        3
    } else if size < 1125899906842624 {
        4
    } else {
        5
    }
}

/// How `size` bytes are shown: as a whole number of bytes below 1024 bytes,
/// else as a fraction of the unit of their rank.
pub open spec fn shown_size(size: int) -> SizeShown {
    if size < 1024 {
        SizeShown::Plain(decimal_text(size as nat) + " B"@)
    } else {
        SizeShown::Scaled {
            size,
            divisor: unit_bytes(unit_rank(size)),
            unit: unit_name(unit_rank(size)),
        }
    }
}

/// A size holds at least one of its unit, and fewer than 1024 of it unless
/// the unit is the largest.
pub proof fn lemma_unit_rank(size: int)
    requires
        size >= 0,
    ensures
        0 <= unit_rank(size) <= 5,
        size >= 1 ==> unit_bytes(unit_rank(size)) <= size,
        unit_rank(size) < 5 ==> size < 1024 * unit_bytes(unit_rank(size)),
        unit_rank(size) < 5 ==> unit_bytes(unit_rank(size) + 1) == 1024 * unit_bytes(
            unit_rank(size),
        ),
{
}

/// The name of the unit of the given rank.
pub fn unit_label(rank: usize) -> (r: &'static str)
    ensures
        r@ == unit_name(rank as int),
{
    if rank == 0 {
        "B"
    } else if rank == 1 {
        "KB"
    } else if rank == 2 {
        "MB"
    } else if rank == 3 {
        "GB"
    } else if rank == 4 {
        "TB"
    } else {
        "PB"
    }
}

/// Decides how `size` bytes are shown, and writes the bytes.
pub fn format_size(size: u64) -> (r: SizeText)
    ensures
        r@ == shown_size(size as int),
{
    let mut rest: u64 = size;
    let mut divisor: u64 = 1;
    let mut rank: usize = 0;
    while rest >= 1024 && rank < 5
        invariant
            rank <= 5,
            divisor == unit_bytes(rank as int),
            rest == size / divisor,
            rank > 0 ==> size >= divisor,
        decreases 5 - rank,
    {
        proof {
            lemma_div_denominator(size as int, divisor as int, 1024);
        }
        rest = rest / 1024;
        divisor = divisor * 1024;
        rank = rank + 1;
    }
    assert(rank == unit_rank(size as int));
    if rank == 0 {
        let mut out: Vec<char> = Vec::new();
        push_decimal(&mut out, rest);
        push_str(&mut out, " B");
        SizeText::Plain(string_of(out.as_slice()))
    } else {
        SizeText::Scaled { size, divisor, unit: owned(unit_label(rank)) }
    }
}

/// Whether `name` fits `pattern`: a pattern that begins with `*.` asks for
/// names that end as the pattern does after its star; any other pattern asks
/// for names that hold it.
pub open spec fn fits_pattern(name: Seq<char>, pattern: Seq<char>) -> bool {
    if "*."@.is_prefix_of(pattern) {
        pattern.skip(1).is_suffix_of(name)
    } else {
        has_part(name, pattern)
    }
}

fn fits(name: &[char], pattern: &[char]) -> (r: bool)
    ensures
        r == fits_pattern(name@, pattern@),
{
    let star_dot = chars_of("*.");
    if starts_with(pattern, star_dot.as_slice()) {
        proof {
            reveal_strlit("*.");
        }
        let tail = slice_subrange(pattern, 1, pattern.len());
        assert(tail@ == pattern@.skip(1));
        ends_with(name, tail)
    } else {
        contains(name, pattern)
    }
}

/// Whether `name` fits `pattern`.
pub fn matches_pattern(name: &str, pattern: &str) -> (r: bool)
    ensures
        r == fits_pattern(name@, pattern@),
{
    let n = chars_of(name);
    let p = chars_of(pattern);
    fits(n.as_slice(), p.as_slice())
}

/// What the command line asks for.
#[derive(Debug, Clone, PartialEq, Eq)]
pub struct Config {
    pub root: String,
    pub max_depth: Option<usize>,
    pub show_size: bool,
    pub show_hidden: bool,
    pub dirs_only: bool,
    pub pattern: Option<String>,
    pub ignore: Option<String>,
}

/// A `Config` with its texts taken as sequences of characters.
pub struct ConfigView {
    pub root: Seq<char>,
    pub max_depth: Option<int>,
    pub show_size: bool,
    pub show_hidden: bool,
    pub dirs_only: bool,
    pub pattern: Option<Seq<char>>,
    pub ignore: Option<Seq<char>>,
}

impl View for Config {
    type V = ConfigView;

    open spec fn view(&self) -> ConfigView {
        ConfigView {
            root: self.root@,
            max_depth: match self.max_depth {
                Some(d) => Some(d as int),
                None => None,
            },
            show_size: self.show_size,
            show_hidden: self.show_hidden,
            dirs_only: self.dirs_only,
            pattern: match self.pattern {
                Some(p) => Some(p@),
                None => None,
            },
            ignore: match self.ignore {
                Some(p) => Some(p@),
                None => None,
            },
        }
    }
}

/// Whether an entry is shown. Hidden entries, whose names begin with a dot,
/// are shown only on request; files are left out where only directories are
/// asked for; a file must fit the pattern where there is one; and nothing is
/// shown that fits the pattern to ignore.
pub open spec fn is_shown(name: Seq<char>, config: ConfigView, is_dir: bool) -> bool {
    &&& config.show_hidden || !(name.len() > 0 && name[0] == '.')
    &&& !(config.dirs_only && !is_dir)
    &&& config.pattern matches Some(pattern) ==> is_dir || fits_pattern(name, pattern)
    &&& config.ignore matches Some(ignore) ==> !fits_pattern(name, ignore)
}

/// Whether the entry called `name` is shown.
pub fn should_process_file(name: &str, config: &Config, is_dir: bool) -> (r: bool)
    ensures
        r == is_shown(name@, config@, is_dir),
{
    let n = chars_of(name);
    if !config.show_hidden && n.len() > 0 && n[0] == '.' {
        return false;
    }
    if config.dirs_only && !is_dir {
        return false;
    }
    if let Some(pattern) = &config.pattern {
        let p = chars_of(pattern.as_str());
        if !is_dir && !fits(n.as_slice(), p.as_slice()) {
            return false;
        }
    }
    if let Some(ignore) = &config.ignore {
        let p = chars_of(ignore.as_str());
        if fits(n.as_slice(), p.as_slice()) {
            return false;
        }
    }
    true
}

/// Whether an entry at `depth` lies deeper than is shown.
pub fn beyond_depth(depth: usize, max_depth: Option<usize>) -> (r: bool)
    ensures
        r == (max_depth matches Some(most) && depth > most),
{
    match max_depth {
        Some(most) => depth > most,
        None => false,
    }
}

/// The line of the tree for one entry: what its parents drew, its own
/// branch, its name, and in brackets its size, or `DIR` for a directory,
/// where sizes are shown.
pub open spec fn line_text(
    prefix: Seq<char>,
    last_item: bool,
    name: Seq<char>,
    show_size: bool,
    is_dir: bool,
    size: Seq<char>,
) -> Seq<char> {
    prefix + (if last_item {
        "└── "@
    } else {
        "├── "@
    }) + name + (if !show_size {
        Seq::empty()
    } else if is_dir {
        " [DIR]"@
    } else {
        " ["@ + size + "]"@
    }) + "\n"@
}

/// The line of the tree for one entry. `size` is the entry's size as it is
/// to be shown.
pub fn entry_line(
    prefix: &str,
    last_item: bool,
    name: &str,
    show_size: bool,
    is_dir: bool,
    size: &str,
) -> (r: String)
    ensures
        r@ == line_text(prefix@, last_item, name@, show_size, is_dir, size@),
{
    let mut out: Vec<char> = Vec::new();
    push_str(&mut out, prefix);
    if last_item {
        push_str(&mut out, "└── ");
    } else {
        push_str(&mut out, "├── ");
    }
    push_str(&mut out, name);
    if show_size {
        if is_dir {
            push_str(&mut out, " [DIR]");
        } else {
            push_str(&mut out, " [");
            push_str(&mut out, size);
            push_str(&mut out, "]");
        }
    }
    push_str(&mut out, "\n");
    string_of(out.as_slice())
}

/// What the entries of a directory draw before their own branch: nothing
/// below the root; else what the directory drew, and a bar where more
/// entries follow the directory, or blanks where it is the last.
pub open spec fn prefix_text(prefix: Seq<char>, is_root: bool, last_item: bool) -> Seq<char> {
    if is_root {
        Seq::empty()
    } else if last_item {
        prefix + "    "@
    } else {
        prefix + "│   "@
    }
}

/// What the entries of a directory draw before their own branch.
pub fn child_prefix(prefix: &str, is_root: bool, last_item: bool) -> (r: String)
    ensures
        r@ == prefix_text(prefix@, is_root, last_item),
{
    let mut out: Vec<char> = Vec::new();
    if is_root {
    } else if last_item {
        push_str(&mut out, prefix);
        push_str(&mut out, "    ");
    } else {
        push_str(&mut out, prefix);
        push_str(&mut out, "│   ");
    }
    string_of(out.as_slice())
}

/// Whether the entry at position `index` of `total` is the last.
pub fn is_last(index: usize, total: usize) -> (r: bool)
    ensures
        r == (index + 1 == total),
{
    total > 0 && index == total - 1
}

/// What is counted while the tree is walked.
#[derive(Debug, Clone, Copy, PartialEq, Eq, Structural)]
pub struct TreeStats {
    pub total_dirs: usize,
    pub total_files: usize,
    pub total_size: u64,
}

impl Default for TreeStats {
    fn default() -> (r: Self)
        ensures
            r == (TreeStats { total_dirs: 0, total_files: 0, total_size: 0 }),
    {
        TreeStats { total_dirs: 0, total_files: 0, total_size: 0 }
    }
}

impl TreeStats {
    /// The counts after one more entry: a directory counts as one, but for
    /// the root; anything else counts as a file, with its size.
    pub open spec fn with_entry(self, is_dir: bool, is_root: bool, size: u64) -> TreeStats {
        if is_dir {
            if is_root {
                self
            } else {
                TreeStats { total_dirs: (self.total_dirs + 1) as usize, ..self }
            }
        } else {
            TreeStats {
                total_files: (self.total_files + 1) as usize,
                total_size: (self.total_size + size) as u64,
                ..self
            }
        }
    }

    /// Whether one more entry can be counted without a count running over.
    pub open spec fn has_room(self, is_dir: bool, size: u64) -> bool {
        if is_dir {
            self.total_dirs < usize::MAX
        } else {
            self.total_files < usize::MAX && self.total_size + size <= u64::MAX
        }
    }

    /// Whether one more entry can be counted without a count running over.
    pub fn can_record(&self, is_dir: bool, size: u64) -> (r: bool)
        ensures
            r == self.has_room(is_dir, size),
    {
        if is_dir {
            self.total_dirs < usize::MAX
        } else {
            self.total_files < usize::MAX && size <= u64::MAX - self.total_size
        }
    }

    /// Counts one more entry.
    pub fn record(&mut self, is_dir: bool, is_root: bool, size: u64)
        requires
            old(self).has_room(is_dir, size),
        ensures
            *final(self) == old(self).with_entry(is_dir, is_root, size),
    {
        if is_dir {
            if !is_root {
                self.total_dirs += 1;
            }
        } else {
            self.total_files += 1;
            self.total_size += size;
        }
    }
}

/// The summary under the tree: the counts of directories and files, and
/// the total size, as given, where sizes are shown.
pub open spec fn summary_of(stats: TreeStats, show_size: bool, size: Seq<char>) -> Seq<char> {
    "\nSummary:\n  "@ + decimal_text(stats.total_dirs as nat) + " directories\n  "@ + decimal_text(
        stats.total_files as nat,
    ) + " files\n"@ + (if show_size {
        "  Total size: "@ + size + "\n"@
    } else {
        Seq::empty()
    })
}

/// The summary under the tree. `size` is the total size as it is to be
/// shown.
pub fn summary_text(stats: &TreeStats, show_size: bool, size: &str) -> (r: String)
    ensures
        r@ == summary_of(*stats, show_size, size@),
{
    let mut out: Vec<char> = Vec::new();
    push_str(&mut out, "\nSummary:\n  ");
    push_decimal(&mut out, stats.total_dirs as u64);
    push_str(&mut out, " directories\n  ");
    push_decimal(&mut out, stats.total_files as u64);
    push_str(&mut out, " files\n");
    if show_size {
        push_str(&mut out, "  Total size: ");
        push_str(&mut out, size);
        push_str(&mut out, "\n");
    }
    string_of(out.as_slice())
}

/// What a command line comes to: a request for the help text, or a tree to
/// show.
#[derive(Debug, Clone, PartialEq, Eq)]
pub enum Invocation {
    Help,
    Run(Config),
}

/// An `Invocation` with its texts taken as sequences of characters.
pub enum InvocationView {
    Help,
    Run(ConfigView),
}

impl View for Invocation {
    type V = InvocationView;

    open spec fn view(&self) -> InvocationView {
        match self {
            Invocation::Help => InvocationView::Help,
            Invocation::Run(config) => InvocationView::Run(config@),
        }
    }
}

/// The depth that `text` asks for: the number it writes, or 0 where it
/// writes none.
pub open spec fn depth_of(text: Seq<char>) -> int {
    match unsigned_value(text, usize::MAX as int) {
        Some(depth) => depth,
        None => 0,
    }
}

/// What the arguments from position `at` on come to, with `sofar` read of
/// those before. An option that takes a value and stands last is passed
/// over; an argument that begins with no dash is the directory to show, the
/// last of them standing; any other argument is passed over.
pub open spec fn parsed_from(args: Seq<Seq<char>>, at: int, sofar: ConfigView) -> InvocationView
    decreases args.len() - at,
{
    if at < 0 || at >= args.len() {
        InvocationView::Run(sofar)
    } else {
        let arg = args[at];
        if arg == "--help"@ {
            InvocationView::Help
        } else if arg == "-L"@ || arg == "--level"@ {
            if at + 1 < args.len() {
                parsed_from(
                    args,
                    at + 2,
                    ConfigView { max_depth: Some(depth_of(args[at + 1])), ..sofar },
                )
            } else {
                InvocationView::Run(sofar)
            }
        } else if arg == "-s"@ || arg == "--size"@ {
            parsed_from(args, at + 1, ConfigView { show_size: true, ..sofar })
        } else if arg == "-h"@ || arg == "--hidden"@ {
            parsed_from(args, at + 1, ConfigView { show_hidden: true, ..sofar })
        } else if arg == "-d"@ || arg == "--dirs-only"@ {
            parsed_from(args, at + 1, ConfigView { dirs_only: true, ..sofar })
        } else if arg == "-p"@ || arg == "--pattern"@ {
            if at + 1 < args.len() {
                parsed_from(args, at + 2, ConfigView { pattern: Some(args[at + 1]), ..sofar })
            } else {
                InvocationView::Run(sofar)
            }
        } else if arg == "-i"@ || arg == "--ignore"@ {
            if at + 1 < args.len() {
                parsed_from(args, at + 2, ConfigView { ignore: Some(args[at + 1]), ..sofar })
            } else {
                InvocationView::Run(sofar)
            }
        } else if arg.len() > 0 && arg[0] == '-' {
            parsed_from(args, at + 1, sofar)
        } else {
            parsed_from(args, at + 1, ConfigView { root: arg, ..sofar })
        }
    }
}

/// What a command line comes to. The first argument is the program's own
/// name and is not read. Unless told otherwise the tree of the current
/// directory is shown, to any depth, without sizes and hidden entries.
pub open spec fn parsed_args(args: Seq<Seq<char>>) -> InvocationView {
    parsed_from(
        args,
        1,
        ConfigView {
            root: "."@,
            max_depth: None,
            show_size: false,
            show_hidden: false,
            dirs_only: false,
            pattern: None,
            ignore: None,
        },
    )
}

/// Reads the command line.
pub fn parse_args(args: &Vec<String>) -> (r: Invocation)
    ensures
        r@ == parsed_args(strings(args@)),
{
    let mut config = Config {
        root: owned("."),
        max_depth: None,
        show_size: false,
        show_hidden: false,
        dirs_only: false,
        pattern: None,
        ignore: None,
    };
    let ghost all = strings(args@);
    let mut i: usize = 1;
    while i < args.len()
        invariant
            1 <= i,
            all == strings(args@),
            parsed_args(all) == parsed_from(all, i as int, config@),
        decreases args.len() - i,
    {
        let arg = chars_of(args[i].as_str());
        assert(arg@ == all[i as int]);
        if is_word(arg.as_slice(), "--help") {
            return Invocation::Help;
        } else if is_word(arg.as_slice(), "-L") || is_word(arg.as_slice(), "--level") {
            i += 1;
            if i < args.len() {
                let value = chars_of(args[i].as_str());
                assert(value@ == all[i as int]);
                config.max_depth = Some(
                    match parse_usize(value.as_slice()) {
                        Some(depth) => depth,
                        None => 0,
                    },
                );
            } else {
                return Invocation::Run(config);
            }
        } else if is_word(arg.as_slice(), "-s") || is_word(arg.as_slice(), "--size") {
            config.show_size = true;
        } else if is_word(arg.as_slice(), "-h") || is_word(arg.as_slice(), "--hidden") {
            config.show_hidden = true;
        } else if is_word(arg.as_slice(), "-d") || is_word(arg.as_slice(), "--dirs-only") {
            config.dirs_only = true;
        } else if is_word(arg.as_slice(), "-p") || is_word(arg.as_slice(), "--pattern") {
            i += 1;
            if i < args.len() {
                assert(args@[i as int]@ == all[i as int]);
                config.pattern = Some(args[i].clone());
            } else {
                return Invocation::Run(config);
            }
        } else if is_word(arg.as_slice(), "-i") || is_word(arg.as_slice(), "--ignore") {
            i += 1;
            if i < args.len() {
                assert(args@[i as int]@ == all[i as int]);
                config.ignore = Some(args[i].clone());
            } else {
                return Invocation::Run(config);
            }
        } else {
            if !(arg.len() > 0 && arg[0] == '-') {
                config.root = args[i].clone();
            }
        }
        i += 1;
    }
    Invocation::Run(config)
}

} // verus!
