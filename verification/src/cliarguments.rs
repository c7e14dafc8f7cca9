use crate::text::{opt_text, text_eq, text_pairs, texts};
use vstd::prelude::*;

verus! {

pub const USAGE: &'static str = "
nxcloudnotes -- A NextCloud CLI dumping tool.
Usage:
  nxcloudnotes <command> [<args>...]
  nxcloudnotes help
  nxcloudnotes config-path
  nxcloudnotes \"NOTES BODY\"
  nxcloudnotes -p\"NxCloudPassword\" \"NOTES BODY\"
  nxcloudnotes -t\"NOTES TITLE\" \"NOTES BODY\"
Commands:
  help             Display usage information.
  config-path      Output path to .toml config file used for this application.
  \"\"             Empty strings are treated as the notes body if no other commands are found.
";

/// What the program was asked to do.
#[derive(Debug, PartialEq)]
pub enum ProgramCommands {
    PostNote(PostNoteCLIConfig),
    ConfigPath,
    Help(&'static str),
}

/// The command named by the arguments read so far; the flags are joined to
/// it when all arguments have been read.
enum ParsedCommands {
    PostNote(String),
    ConfigPath,
    Help,
}

/// What the command line says of the note to post.
#[derive(Debug, PartialEq)]
pub struct PostNoteCLIConfig {
    pub password: Option<String>,
    pub title: Option<String>,
    pub content: String,
}

/// One argument: a plain word, or a flag of one character with its value.
#[derive(Debug)]
pub enum Arg<FlagType> {
    Plain(FlagType),
    Short(FlagType, String),
}

/// An argument as plain values.
pub enum ArgView {
    Plain(Seq<char>),
    Short(Seq<char>, Seq<char>),
}

/// A note's command-line settings as plain values.
pub struct PostNoteView {
    pub password: Option<Seq<char>>,
    pub title: Option<Seq<char>>,
    pub content: Seq<char>,
}

/// A command as plain values.
pub enum CommandView {
    PostNote(PostNoteView),
    ConfigPath,
    Help(Seq<char>),
}

impl<FlagType: View<V = Seq<char>>> View for Arg<FlagType> {
    type V = ArgView;

    open spec fn view(&self) -> ArgView {
        match self {
            Arg::Plain(word) => ArgView::Plain(word@),
            Arg::Short(flag, value) => ArgView::Short(flag@, value@),
        }
    }
}

impl View for PostNoteCLIConfig {
    type V = PostNoteView;

    open spec fn view(&self) -> PostNoteView {
        PostNoteView {
            password: opt_text(self.password),
            title: opt_text(self.title),
            content: self.content@,
        }
    }
}

impl View for ProgramCommands {
    type V = CommandView;

    open spec fn view(&self) -> CommandView {
        match self {
            ProgramCommands::PostNote(config) => CommandView::PostNote(config@),
            ProgramCommands::ConfigPath => CommandView::ConfigPath,
            ProgramCommands::Help(usage) => CommandView::Help(usage@),
        }
    }
}

/// How one argument is read. A dash, one character and at least one more
/// make a flag with its value; everything else is a plain word, a lone dash
/// and a flag without a value too.
pub open spec fn read_arg(text: Seq<char>) -> ArgView {
    if text.len() >= 3 && text[0] == '-' {
        ArgView::Short(text.subrange(1, 2), text.subrange(2, text.len() as int))
    } else {
        ArgView::Plain(text)
    }
}

/// The arguments of the program, read one by one: all of `argv` but its
/// first entry, the executable's name.
pub open spec fn program_args(argv: Seq<Seq<char>>) -> Seq<ArgView> {
    Seq::new(
        if argv.len() > 0 {
            (argv.len() - 1) as nat
        } else {
            0
        },
        |i: int| read_arg(argv[i + 1]),
    )
}

/// The last plain word among the arguments.
pub open spec fn last_plain(args: Seq<ArgView>) -> Option<Seq<char>>
    decreases args.len(),
{
    if args.len() == 0 {
        None
    } else {
        match args.last() {
            ArgView::Plain(word) => Some(word),
            ArgView::Short(_, _) => last_plain(args.drop_last()),
        }
    }
}

/// The flags among the arguments, each with its value, in the order given.
pub open spec fn flags_of(args: Seq<ArgView>) -> Seq<(Seq<char>, Seq<char>)>
    decreases args.len(),
{
    if args.len() == 0 {
        Seq::empty()
    } else {
        match args.last() {
            ArgView::Plain(_) => flags_of(args.drop_last()),
            ArgView::Short(flag, value) => flags_of(args.drop_last()).push((flag, value)),
        }
    }
}

/// The value that a flag has: the one given last.
pub open spec fn flag_value(flags: Seq<(Seq<char>, Seq<char>)>, flag: Seq<char>) -> Option<
    Seq<char>,
>
    decreases flags.len(),
{
    if flags.len() == 0 {
        None
    } else if flags.last().0 == flag {
        Some(flags.last().1)
    } else {
        flag_value(flags.drop_last(), flag)
    }
}

/// A note with the given content and the title and password that the flags
/// `t` and `p` give.
pub open spec fn post_note_of(flags: Seq<(Seq<char>, Seq<char>)>, content: Seq<char>) -> PostNoteView {
    PostNoteView {
        title: flag_value(flags, "t"@),
        password: flag_value(flags, "p"@),
        content: content,
    }
}

/// The command that the arguments ask for. The last plain word decides:
/// `config-path`, `help`, or else the content of a note to post. Without a
/// plain word the usage is shown.
pub open spec fn command_of(args: Seq<ArgView>) -> CommandView {
    match last_plain(args) {
        None => CommandView::Help(USAGE@),
        Some(word) => if word == "config-path"@ {
            CommandView::ConfigPath
        } else if word == "help"@ {
            CommandView::Help(USAGE@)
        } else {
            CommandView::PostNote(post_note_of(flags_of(args), word))
        },
    }
}

impl Arg<String> {
    /// The same argument with its word or flag borrowed.
    pub fn flag_as_ref(&self) -> (arg: Arg<&str>)
        ensures
            arg@ == self@,
    {
        match self {
            Arg::Plain(x) => Arg::Plain(x.as_str()),
            Arg::Short(x, value) => Arg::Short(x.as_str(), value.clone()),
        }
    }

    /// The argument as it is shown to the user: a plain word as it is, a
    /// flag as a dash and its character, without the value.
    pub fn to_text(&self) -> (text: String)
        ensures
            text@ == match self@ {
                ArgView::Plain(word) => word,
                ArgView::Short(flag, _) => "-"@ + flag,
            },
    {
        match self {
            Arg::Plain(cmd) => cmd.clone(),
            Arg::Short(arg, _val) => {
                let mut text: String = String::from_str("-");
                text.append(arg.as_str());
                text
            },
        }
    }
}

/// Hands out the arguments of a command line one by one.
pub struct ArgIter {
    args: Vec<String>,
    position: usize,
}

impl ArgIter {
    /// The arguments that have not been handed out yet.
    pub closed spec fn remaining(&self) -> Seq<Seq<char>> {
        if self.position <= self.args@.len() {
            texts(self.args@.subrange(self.position as int, self.args@.len() as int))
        } else {
            Seq::empty()
        }
    }

    pub fn new(args: Vec<String>) -> (iter: ArgIter)
        ensures
            iter.remaining() == texts(args@),
    {
        let iter = ArgIter { args, position: 0 };
        assert(iter.args@.subrange(0, iter.args@.len() as int) =~= iter.args@);
        iter
    }

    /// Reads the next argument, if one is left.
    pub fn next(&mut self) -> (arg: Option<Arg<String>>)
        ensures
            old(self).remaining().len() == 0 ==> arg is None && final(self).remaining()
                == old(self).remaining(),
            old(self).remaining().len() > 0 ==> arg is Some && arg->0@ == read_arg(
                old(self).remaining()[0],
            ) && final(self).remaining() == old(self).remaining().drop_first(),
    {
        if self.position >= self.args.len() {
            return None;
        }
        let arg: String = self.args[self.position].clone();
        self.position = self.position + 1;
        assert(final(self).remaining() =~= old(self).remaining().drop_first());
        let n: usize = arg.as_str().unicode_len();
        if n >= 3 && arg.as_str().get_char(0) == '-' {
            let flag: String = String::from_str(arg.as_str().substring_char(1, 2));
            let user_value: String = String::from_str(arg.as_str().substring_char(2, n));
            return Some(Arg::Short(flag, user_value));
        }
        Some(Arg::Plain(arg))
    }
}

/// Whether `operator` is the command that the last plain word asks for.
spec fn operator_is(operator: ParsedCommands, word: Option<Seq<char>>) -> bool {
    match word {
        None => operator is Help,
        Some(word) => if word == "config-path"@ {
            operator is ConfigPath
        } else if word == "help"@ {
            operator is Help
        } else {
            operator matches ParsedCommands::PostNote(content) && content@ == word
        },
    }
}

/// The value given last for `flag`, if it was given at all.
fn last_flag_value(flags: &Vec<(String, String)>, flag: &str) -> (value: Option<String>)
    ensures
        opt_text(value) == flag_value(text_pairs(flags@), flag@),
{
    let ghost all: Seq<(Seq<char>, Seq<char>)> = text_pairs(flags@);
    let mut i: usize = flags.len();
    assert(all.subrange(0, i as int) =~= all);
    while i > 0
        invariant
            i <= flags@.len(),
            all == text_pairs(flags@),
            flag_value(all, flag@) == flag_value(all.subrange(0, i as int), flag@),
        decreases i,
    {
        i = i - 1;
        assert(all.subrange(0, i + 1).drop_last() =~= all.subrange(0, i as int));
        assert(all.subrange(0, i + 1).last() == all[i as int]);
        if text_eq(flags[i].0.as_str(), flag) {
            return Some(flags[i].1.clone());
        }
    }
    None
}

/// Joins the flags that were read to the content of the note.
pub fn parse_flags_to_post_note_cli_config(flags: Vec<(String, String)>, content: String) -> (config:
    PostNoteCLIConfig)
    ensures
        config@ == post_note_of(text_pairs(flags@), content@),
{
    PostNoteCLIConfig {
        title: last_flag_value(&flags, "t"),
        password: last_flag_value(&flags, "p"),
        content,
    }
}

/// Reads the command line. It never fails: what is no command and no flag
/// is the content of a note.
pub fn parse_args(argv: Vec<String>) -> (result: Result<ProgramCommands, String>)
    ensures
        result matches Ok(command) && command@ == command_of(program_args(texts(argv@))),
{
    let ghost all: Seq<ArgView> = program_args(texts(argv@));
    let mut args: ArgIter = ArgIter::new(argv);
    // Skip the executable name
    args.next();

    let mut operator: ParsedCommands = ParsedCommands::Help;
    // each flag is kept with its value, in the order given
    let mut flags: Vec<(String, String)> = Vec::new();
    let ghost mut done: int = 0;
    assert(all.subrange(0, 0) =~= Seq::<ArgView>::empty());

    loop
        invariant
            0 <= done <= all.len(),
            args.remaining().len() == all.len() - done,
            forall|k: int|
                0 <= k < args.remaining().len() ==> read_arg(#[trigger] args.remaining()[k])
                    == all[done + k],
            operator_is(operator, last_plain(all.subrange(0, done))),
            text_pairs(flags@) == flags_of(all.subrange(0, done)),
        ensures
            done == all.len(),
        decreases args.remaining().len(),
    {
        let ghost before: Seq<ArgView> = all.subrange(0, done);
        let ghost after: Seq<ArgView> = all.subrange(0, done + 1);
        let ghost left: Seq<Seq<char>> = args.remaining();
        match args.next() {
            None => {
                break ;
            },
            Some(arg) => {
                proof {
                    assert(read_arg(left[0]) == all[done]);
                    assert(after.drop_last() =~= before);
                    assert(after.last() == arg@);
                    assert forall|k: int| 0 <= k < args.remaining().len() implies read_arg(
                        #[trigger] args.remaining()[k],
                    ) == all[done + 1 + k] by {
                        assert(args.remaining()[k] == left[k + 1]);
                    }
                }
                match arg.flag_as_ref() {
                    Arg::Plain(word) => {
                        if text_eq(word, "config-path") {
                            operator = ParsedCommands::ConfigPath;
                        } else if text_eq(word, "help") {
                            operator = ParsedCommands::Help;
                        } else {
                            operator = ParsedCommands::PostNote(String::from_str(word));
                        }
                    },
                    Arg::Short(flag, value) => {
                        let ghost old_flags: Seq<(String, String)> = flags@;
                        flags.push((String::from_str(flag), value));
                        assert(text_pairs(flags@) =~= text_pairs(old_flags).push((flag@, value@)));
                    },
                }
                proof {
                    done = done + 1;
                }
            },
        }
    }
    assert(all.subrange(0, done) =~= all);

    let cmd: ProgramCommands = match operator {
        ParsedCommands::ConfigPath => ProgramCommands::ConfigPath,
        ParsedCommands::Help => ProgramCommands::Help(USAGE),
        ParsedCommands::PostNote(content) => ProgramCommands::PostNote(
            parse_flags_to_post_note_cli_config(flags, content),
        ),
    };

    Ok(cmd)
}

} // verus!
