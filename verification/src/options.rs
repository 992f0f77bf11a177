//! The argument interpreter: raw command-line tokens to an options record.

use vstd::prelude::*;

verus! {

/// What one invocation asks for.
#[derive(Debug)]
pub struct Options {
    /// List the entries whose name starts with a dot as well.
    pub all_files: bool,
    /// Print the usage banner and do nothing else.
    pub help: bool,
    /// The directory to list.
    pub path: String,
}

/// The mathematical value of an [`Options`] record.
pub struct OptionsView {
    pub all_files: bool,
    pub help: bool,
    pub path: Seq<char>,
}

impl View for Options {
    type V = OptionsView;

    open spec fn view(&self) -> OptionsView {
        OptionsView { all_files: self.all_files, help: self.help, path: self.path@ }
    }
}

/// The command-line switch that asks for hidden entries too.
pub const ALL_FILES_FLAG: &'static str = "-a";

/// The command-line switch that asks for the usage banner.
pub const HELP_FLAG: &'static str = "-h";

/// The directory listed when no token names one: the current one.
pub const DEFAULT_PATH: &'static str = "./";

/// The token that asks for hidden entries too.
pub open spec fn all_files_flag() -> Seq<char> {
    ALL_FILES_FLAG@
}

/// The token that asks for the usage banner.
pub open spec fn help_flag() -> Seq<char> {
    HELP_FLAG@
}

/// The directory listed when no token names one.
pub open spec fn default_path() -> Seq<char> {
    DEFAULT_PATH@
}

/// The tokens as character sequences, in order.
pub open spec fn token_views(args: Seq<String>) -> Seq<Seq<char>> {
    Seq::new(args.len(), |i: int| args[i]@)
}

/// `flag` stands somewhere behind the invocation name.
pub open spec fn mentions(tokens: Seq<Seq<char>>, flag: Seq<char>) -> bool {
    exists|i: int| 1 <= i < tokens.len() && #[trigger] tokens[i] == flag
}

/// A token that is neither flag is taken as the directory to list.
pub open spec fn is_path_token(token: Seq<char>) -> bool {
    token != all_files_flag() && token != help_flag()
}

/// The last path token behind the invocation name, or the default where there is none.
pub open spec fn selected_path(tokens: Seq<Seq<char>>) -> Seq<char>
    decreases tokens.len(),
{
    if tokens.len() <= 1 {
        default_path()
    } else if is_path_token(tokens.last()) {
        tokens.last()
    } else {
        selected_path(tokens.drop_last())
    }
}

/// The record that a token list stands for. Token 0 is the invocation name and
/// is never read; a list without it gives the defaults.
pub open spec fn parse(tokens: Seq<Seq<char>>) -> OptionsView {
    OptionsView {
        all_files: mentions(tokens, all_files_flag()),
        help: mentions(tokens, help_flag()),
        path: selected_path(tokens),
    }
}

/// What one more token does to the record read so far: a flag sets its
/// field, any other token replaces the path.
pub open spec fn with_token(so_far: OptionsView, token: Seq<char>) -> OptionsView {
    if token == all_files_flag() {
        OptionsView { all_files: true, ..so_far }
    } else if token == help_flag() {
        OptionsView { help: true, ..so_far }
    } else {
        OptionsView { path: token, ..so_far }
    }
}

/// The first `count` tokens, or all of them where there are fewer.
pub open spec fn first_tokens(tokens: Seq<Seq<char>>, count: int) -> Seq<Seq<char>> {
    if count <= tokens.len() {
        tokens.take(count)
    } else {
        tokens
    }
}

impl Options {
    /// Reads the whole argument list of a process, invocation name included.
    pub fn new(args: &Vec<String>) -> (opts: Options)
        ensures
            opts@ == parse(token_views(args@)),
    {
        let all_files_token = String::from_str(ALL_FILES_FLAG);
        let help_token = String::from_str(HELP_FLAG);
        let mut opts = Options {
            all_files: false,
            help: false,
            path: String::from_str(DEFAULT_PATH),
        };
        let ghost tokens = token_views(args@);
        proof {
            lemma_without_tokens(first_tokens(tokens, 1));
        }

        let mut i: usize = 1;
        while i < args.len()
            invariant
                1 <= i,
                tokens == token_views(args@),
                all_files_token@ == all_files_flag(),
                help_token@ == help_flag(),
                opts@ == parse(first_tokens(tokens, i as int)),
            decreases args.len() - i,
        {
            let arg = &args[i];
            proof {
                let read = tokens.take(i + 1);
                assert(read.drop_last() =~= tokens.take(i as int));
                assert(read.last() == arg@);
                lemma_one_more_token(read);
            }
            if *arg == all_files_token {
                opts.all_files = true;
            } else if *arg == help_token {
                opts.help = true;
            } else {
                opts.path = arg.clone();
            }
            i += 1;
        }
        proof {
            assert(first_tokens(tokens, i as int) =~= tokens);
        }
        opts
    }
}

/// A list that holds the invocation name at most stands for the defaults.
pub proof fn lemma_without_tokens(tokens: Seq<Seq<char>>)
    requires
        tokens.len() <= 1,
    ensures
        parse(tokens) == (OptionsView { all_files: false, help: false, path: default_path() }),
{
}

/// Reading a list is reading all but its last token and then applying the
/// last one: each token is looked at once, in order, and a later one
/// overrides an earlier one.
pub proof fn lemma_one_more_token(tokens: Seq<Seq<char>>)
    requires
        tokens.len() >= 2,
    ensures
        parse(tokens) == with_token(parse(tokens.drop_last()), tokens.last()),
{
    lemma_flag_tokens();
    lemma_mentions_push(tokens, all_files_flag());
    lemma_mentions_push(tokens, help_flag());
}

/// The tokens character by character: the two flags differ from each other,
/// and the default path is neither.
pub proof fn lemma_flag_tokens()
    ensures
        all_files_flag() == seq!['-', 'a'],
        help_flag() == seq!['-', 'h'],
        default_path() == seq!['.', '/'],
        all_files_flag() != help_flag(),
        is_path_token(default_path()),
{
    reveal_strlit("-a");
    reveal_strlit("-h");
    reveal_strlit("./");
    assert(all_files_flag() =~= seq!['-', 'a']);
    assert(help_flag() =~= seq!['-', 'h']);
    assert(default_path() =~= seq!['.', '/']);
    assert(all_files_flag()[1] != help_flag()[1]);
    assert(default_path()[0] != all_files_flag()[0]);
}

/// A flag is mentioned in a list exactly if it is the last token or is
/// mentioned before it.
proof fn lemma_mentions_push(tokens: Seq<Seq<char>>, flag: Seq<char>)
    requires
        tokens.len() >= 2,
    ensures
        mentions(tokens, flag) == (tokens.last() == flag || mentions(tokens.drop_last(), flag)),
{
    let front = tokens.drop_last();
    if mentions(tokens, flag) {
        let i = choose|i: int| 1 <= i < tokens.len() && #[trigger] tokens[i] == flag;
        if i < tokens.len() - 1 {
            assert(front[i] == flag);
        }
    }
    if mentions(front, flag) {
        let i = choose|i: int| 1 <= i < front.len() && #[trigger] front[i] == flag;
        assert(tokens[i] == flag);
    }
    if tokens.last() == flag {
        assert(tokens[tokens.len() - 1] == flag);
    }
}

/// Of several path tokens the last one wins: the path is the token behind
/// which only flags follow.
pub proof fn lemma_last_path_token_wins(tokens: Seq<Seq<char>>, i: int)
    requires
        1 <= i < tokens.len(),
        is_path_token(tokens[i]),
        forall|j: int| i < j < tokens.len() ==> !is_path_token(#[trigger] tokens[j]),
    ensures
        selected_path(tokens) == tokens[i],
    decreases tokens.len(),
{
    if i < tokens.len() - 1 {
        let front = tokens.drop_last();
        assert(!is_path_token(tokens[tokens.len() - 1]));
        assert forall|j: int| i < j < front.len() implies !is_path_token(#[trigger] front[j]) by {
            assert(front[j] == tokens[j]);
        }
        lemma_last_path_token_wins(front, i);
    }
}

/// Where only flags follow the invocation name, the default path stays.
pub proof fn lemma_flags_alone_keep_the_default_path(tokens: Seq<Seq<char>>)
    requires
        forall|j: int| 1 <= j < tokens.len() ==> !is_path_token(#[trigger] tokens[j]),
    ensures
        selected_path(tokens) == default_path(),
    decreases tokens.len(),
{
    if tokens.len() > 1 {
        let front = tokens.drop_last();
        assert(!is_path_token(tokens[tokens.len() - 1]));
        assert forall|j: int| 1 <= j < front.len() implies !is_path_token(#[trigger] front[j]) by {
            assert(front[j] == tokens[j]);
        }
        lemma_flags_alone_keep_the_default_path(front);
    }
}

} // verus!
