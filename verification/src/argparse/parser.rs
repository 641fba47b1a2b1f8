//! The command line: switches, shorthand groups, `--`, and the text to
//! render.
use vstd::prelude::*;

use crate::colors::terms::{color_support, get_color_support, Environment};
use crate::colors::ansicodes::join;
use crate::logger::{Logger, LoggerMode};
use crate::text::{chars_equal, chars_equal_str, push_char, slice_chars, starts_with, to_chars};

verus! {

/// Everything the command line decides.
pub struct CliConfig {
    pub color_mode: ColorMode,
    pub handle_escape: bool,
    pub newline: bool,
    /// Print the text as it is, like `echo`.
    pub no_markup: bool,
    pub text_input: String,
    pub extras: ExtraMode,
    pub logger: Logger,
    pub no_binary_expansion: bool,
    /// Forward the output to `less`.
    pub interactive: bool,
}

/// How colour is emitted.
#[derive(Debug, Default, PartialEq, Eq, Clone, Copy, Structural)]
pub enum ColorMode {
    /// Not chosen yet: decided from the terminal.
    #[default]
    Default,
    NoColor,
    Color256,
}

/// A task other than rendering text.
#[derive(Debug, Default, PartialEq, Eq, Clone, Copy, Structural)]
pub enum ExtraMode {
    #[default]
    NoExtra,
    PrintHelp,
    PrintVersion,
    ListColors,
    ListColorsAsBackground,
    ListStyles,
}

/// A command-line configuration, with its text as characters.
#[verifier::ext_equal]
pub struct ConfigModel {
    pub color_mode: ColorMode,
    pub handle_escape: bool,
    pub newline: bool,
    pub no_markup: bool,
    pub text_input: Seq<char>,
    pub extras: ExtraMode,
    pub logger: Logger,
    pub no_binary_expansion: bool,
    pub interactive: bool,
}

impl View for CliConfig {
    type V = ConfigModel;

    open spec fn view(&self) -> ConfigModel {
        ConfigModel {
            color_mode: self.color_mode,
            handle_escape: self.handle_escape,
            newline: self.newline,
            no_markup: self.no_markup,
            text_input: self.text_input@,
            extras: self.extras,
            logger: self.logger,
            no_binary_expansion: self.no_binary_expansion,
            interactive: self.interactive,
        }
    }
}

/// The logger that the environment asks for.
pub open spec fn env_logger(verbose_log: bool) -> Logger {
    Logger { mode: if verbose_log { LoggerMode::Verbose } else { LoggerMode::Disabled } }
}

/// The configuration before any argument is read.
pub open spec fn initial_model(env: Environment) -> ConfigModel {
    ConfigModel {
        color_mode: ColorMode::Default,
        handle_escape: false,
        newline: true,
        no_markup: false,
        text_input: Seq::empty(),
        extras: ExtraMode::NoExtra,
        logger: env_logger(env.verbose_log),
        no_binary_expansion: false,
        interactive: false,
    }
}

/// The effect of the long switch `--word`; the long forms of `-n`, `-e`,
/// `-c` and `-C` act as those do, and unknown switches change nothing.
pub open spec fn apply_switch(m: ConfigModel, word: Seq<char>) -> ConfigModel {
    if word == "help"@ {
        ConfigModel { extras: ExtraMode::PrintHelp, ..m }
    } else if word == "version"@ {
        ConfigModel { extras: ExtraMode::PrintVersion, ..m }
    } else if word == "listc"@ {
        ConfigModel { extras: ExtraMode::ListColors, ..m }
    } else if word == "listcb"@ {
        ConfigModel { extras: ExtraMode::ListColorsAsBackground, ..m }
    } else if word == "lists"@ {
        ConfigModel { extras: ExtraMode::ListStyles, ..m }
    } else if word == "no-markup"@ {
        ConfigModel { no_markup: true, ..m }
    } else if word == "interactive"@ {
        ConfigModel { interactive: true, ..m }
    } else if word == "nobexp"@ {
        ConfigModel { no_binary_expansion: true, ..m }
    } else if word == "verbose"@ {
        ConfigModel { logger: Logger { mode: LoggerMode::Verbose }, ..m }
    } else if word == "no-newline"@ {
        apply_shorthand(m, 'n')
    } else if word == "handle-escape"@ {
        apply_shorthand(m, 'e')
    } else if word == "force-color"@ {
        apply_shorthand(m, 'c')
    } else if word == "no-color"@ {
        apply_shorthand(m, 'C')
    } else {
        m
    }
}

/// The effect of the shorthand switch `-c`; unknown letters change nothing.
pub open spec fn apply_shorthand(m: ConfigModel, c: char) -> ConfigModel {
    if c == 'n' {
        ConfigModel { newline: false, ..m }
    } else if c == 'e' {
        ConfigModel { handle_escape: true, ..m }
    } else if c == 'c' {
        ConfigModel { color_mode: ColorMode::Color256, ..m }
    } else if c == 'C' {
        ConfigModel { color_mode: ColorMode::NoColor, ..m }
    } else if c == 'm' {
        ConfigModel { no_markup: true, ..m }
    } else if c == 'i' {
        ConfigModel { interactive: true, ..m }
    } else {
        m
    }
}

/// The effect of a group of shorthand switches, in order.
pub open spec fn apply_shorthands(m: ConfigModel, group: Seq<char>) -> ConfigModel
    decreases group.len(),
{
    if group.len() == 0 {
        m
    } else {
        apply_shorthands(apply_shorthand(m, group[0]), group.drop_first())
    }
}

/// `t` with the word `w` added, separated by a space unless `t` is empty.
pub open spec fn append_word(t: Seq<char>, w: Seq<char>) -> Seq<char> {
    if t.len() == 0 {
        w
    } else {
        t.push(' ') + w
    }
}

/// `t` with each of `rest` added after a space.
pub open spec fn append_spaced(t: Seq<char>, rest: Seq<Seq<char>>) -> Seq<char>
    decreases rest.len(),
{
    if rest.len() == 0 {
        t
    } else {
        append_spaced(t.push(' ') + rest[0], rest.drop_first())
    }
}

/// The text after `--`: every remaining argument, taken literally, added to
/// the text with single spaces between.
pub open spec fn append_literal(t: Seq<char>, rest: Seq<Seq<char>>) -> Seq<char> {
    if rest.len() == 0 {
        t
    } else {
        append_spaced(append_word(t, rest[0]), rest.drop_first())
    }
}

/// The effect of one argument other than `--`.
pub open spec fn apply_word(m: ConfigModel, w: Seq<char>) -> ConfigModel {
    if starts_with(w, seq!['-', '-']) {
        apply_switch(m, w.skip(2))
    } else if starts_with(w, seq!['-']) {
        apply_shorthands(m, w.skip(1))
    } else {
        ConfigModel { text_input: append_word(m.text_input, w), ..m }
    }
}

/// The effect of the arguments, in order; `--` ends the switches.
pub open spec fn apply_args(m: ConfigModel, args: Seq<Seq<char>>) -> ConfigModel
    decreases args.len(),
{
    if args.len() == 0 {
        m
    } else if args[0] == seq!['-', '-'] {
        ConfigModel { text_input: append_literal(m.text_input, args.drop_first()), ..m }
    } else {
        apply_args(apply_word(m, args[0]), args.drop_first())
    }
}

/// The configuration that a command line gives in an environment: with no
/// argument, the initial one; otherwise the effect of the arguments, with
/// the colour mode taken from the terminal when no switch chose one.
pub open spec fn parse_model(args: Seq<Seq<char>>, env: Environment) -> ConfigModel {
    if args.len() == 0 {
        initial_model(env)
    } else {
        let m = apply_args(initial_model(env), args);
        if m.color_mode == ColorMode::Default {
            ConfigModel { color_mode: color_support(env), ..m }
        } else {
            m
        }
    }
}

/// The characters of each argument.
pub open spec fn arg_views(args: Seq<&str>) -> Seq<Seq<char>> {
    args.map_values(|a: &str| a@)
}

/// Parses the command line `args` in the environment `env`.
pub fn parse_args(args: &[&str], env: &Environment) -> (config: CliConfig)
    ensures
        config@ == parse_model(arg_views(args@), *env),
{
    let mut config = CliConfig {
        color_mode: ColorMode::Default,
        handle_escape: false,
        newline: true,
        no_markup: false,
        text_input: String::new(),
        extras: ExtraMode::NoExtra,
        logger: create_logger(env),
        no_binary_expansion: false,
        interactive: false,
    };
    assert(config@ == initial_model(*env));
    if args.len() == 0 {
        return config;
    }
    loop_arguments(args, &mut config);
    if config.color_mode == ColorMode::Default {
        config.color_mode = get_color_support(env);
    }
    config
}

/// Applies the arguments to the configuration.
fn loop_arguments(args: &[&str], config: &mut CliConfig)
    ensures
        final(config)@ == apply_args(old(config)@, arg_views(args@)),
{
    let ghost views = arg_views(args@);
    let ghost goal = apply_args(config@, views);
    let mut i: usize = 0;
    assert(views.skip(0) =~= views);
    while i < args.len()
        invariant
            i <= args.len(),
            views == arg_views(args@),
            goal == apply_args(old(config)@, views),
            goal == apply_args(config@, views.skip(i as int)),
        decreases args.len() - i,
    {
        let ghost rest = views.skip(i as int);
        assert(rest[0] == args@[i as int]@);
        assert(rest.drop_first() =~= views.skip(i + 1));
        let word = to_chars(args[i]);
        if chars_equal(&word, &vec!['-', '-']) {
            let ghost t0 = config.text_input@;
            let ghost m0 = config@;
            let ghost tail = views.skip(i + 1);
            assert(rest[0] == seq!['-', '-']);
            let mut j: usize = i + 1;
            assert(tail.take(0) =~= Seq::<Seq<char>>::empty());
            while j < args.len()
                invariant
                    i < j <= args.len(),
                    views == arg_views(args@),
                    tail == views.skip(i + 1),
                    config.text_input@ == append_literal(t0, tail.take(j - i - 1)),
                    config@ == (ConfigModel { text_input: config.text_input@, ..m0 }),
                decreases args.len() - j,
            {
                proof {
                    lemma_append_literal_push(t0, tail.take(j - i - 1), tail[j - i - 1]);
                    assert(tail.take(j - i) =~= tail.take(j - i - 1).push(tail[j - i - 1]));
                    assert(tail[j - i - 1] == args@[j as int]@);
                }
                if j > i + 1 || !config.text_input.as_str().is_empty() {
                    push_char(&mut config.text_input, ' ');
                }
                config.text_input.append(args[j]);
                j += 1;
            }
            assert(tail.take(tail.len() as int) =~= tail);
            assert(config@ =~= apply_args(m0, rest));
            return;
        }
        if starts_with_dashes(&word, 2) {
            let name = slice_chars(&word, 2, word.len());
            resolve_switch(&name, config);
        } else if starts_with_dashes(&word, 1) {
            let group = slice_chars(&word, 1, word.len());
            let mut k: usize = 0;
            let ghost m0 = config@;
            assert(group@.skip(0) =~= group@);
            while k < group.len()
                invariant
                    k <= group.len(),
                    apply_shorthands(m0, group@) == apply_shorthands(config@, group@.skip(k as int)),
                decreases group.len() - k,
            {
                assert(group@.skip(k as int).drop_first() =~= group@.skip(k + 1));
                resolve_shorthand_switch(group[k], config);
                k += 1;
            }
        } else {
            if !config.text_input.as_str().is_empty() {
                push_char(&mut config.text_input, ' ');
            }
            config.text_input.append(args[i]);
        }
        i += 1;
    }
}

/// `append_literal` grows one argument at a time.
proof fn lemma_append_literal_push(t: Seq<char>, rest: Seq<Seq<char>>, w: Seq<char>)
    ensures
        append_literal(t, rest.push(w)) == if rest.len() == 0 {
            append_word(t, w)
        } else {
            append_literal(t, rest).push(' ') + w
        },
{
    if rest.len() > 0 {
        assert(rest.push(w).drop_first() =~= rest.drop_first().push(w));
        lemma_append_spaced_push(append_word(t, rest[0]), rest.drop_first(), w);
    }
}

proof fn lemma_append_spaced_push(t: Seq<char>, rest: Seq<Seq<char>>, w: Seq<char>)
    ensures
        append_spaced(t, rest.push(w)) == append_spaced(t, rest).push(' ') + w,
    decreases rest.len(),
{
    if rest.len() == 0 {
        assert(rest.push(w).drop_first() =~= Seq::<Seq<char>>::empty());
        assert(rest.push(w)[0] == w);
        assert(append_spaced(t.push(' ') + w, Seq::empty()) == t.push(' ') + w);
    } else {
        assert(rest.push(w).drop_first() =~= rest.drop_first().push(w));
        assert(rest.push(w)[0] == rest[0]);
        lemma_append_spaced_push(t.push(' ') + rest[0], rest.drop_first(), w);
    }
}

/// Whether `word` begins with `n` dashes (`n` is 1 or 2).
fn starts_with_dashes(word: &Vec<char>, n: usize) -> (r: bool)
    requires
        n == 1 || n == 2,
    ensures
        r == (if n == 2 {
            starts_with(word@, seq!['-', '-'])
        } else {
            starts_with(word@, seq!['-'])
        }),
{
    if n == 2 {
        let r = word.len() >= 2 && word[0] == '-' && word[1] == '-';
        assert(r == starts_with(word@, seq!['-', '-'])) by {
            if word@.len() >= 2 {
                assert(r <==> word@.take(2) =~= seq!['-', '-']);
            }
        }
        r
    } else {
        let r = word.len() >= 1 && word[0] == '-';
        assert(r == starts_with(word@, seq!['-'])) by {
            if word@.len() >= 1 {
                assert(word@.take(1)[0] == word@[0]);
                assert(r <==> word@.take(1) =~= seq!['-']);
            }
        }
        r
    }
}

/// Applies one shorthand switch.
fn resolve_shorthand_switch(switch: char, config: &mut CliConfig)
    ensures
        final(config)@ == apply_shorthand(old(config)@, switch),
{
    match switch {
        'n' => config.newline = false,
        'e' => config.handle_escape = true,
        'c' => config.color_mode = ColorMode::Color256,
        'C' => config.color_mode = ColorMode::NoColor,
        'm' => config.no_markup = true,
        'i' => config.interactive = true,
        _ => {},
    };
}

/// Applies one long switch, given without its dashes.
fn resolve_switch(word: &Vec<char>, config: &mut CliConfig)
    ensures
        final(config)@ == apply_switch(old(config)@, word@),
{
    if chars_equal_str(word, "help") {
        config.extras = ExtraMode::PrintHelp;
    } else if chars_equal_str(word, "version") {
        config.extras = ExtraMode::PrintVersion;
    } else if chars_equal_str(word, "listc") {
        config.extras = ExtraMode::ListColors;
    } else if chars_equal_str(word, "listcb") {
        config.extras = ExtraMode::ListColorsAsBackground;
    } else if chars_equal_str(word, "lists") {
        config.extras = ExtraMode::ListStyles;
    } else if chars_equal_str(word, "no-markup") {
        config.no_markup = true;
    } else if chars_equal_str(word, "interactive") {
        config.interactive = true;
    } else if chars_equal_str(word, "nobexp") {
        config.no_binary_expansion = true;
    } else if chars_equal_str(word, "verbose") {
        config.logger.mode = LoggerMode::Verbose;
    } else if chars_equal_str(word, "no-newline") {
        resolve_shorthand_switch('n', config);
    } else if chars_equal_str(word, "handle-escape") {
        resolve_shorthand_switch('e', config);
    } else if chars_equal_str(word, "force-color") {
        resolve_shorthand_switch('c', config);
    } else if chars_equal_str(word, "no-color") {
        resolve_shorthand_switch('C', config);
    }
}

/// The logger that the environment asks for.
fn create_logger(env: &Environment) -> (l: Logger)
    ensures
        l == env_logger(env.verbose_log),
{
    Logger {
        mode: if env.verbose_log {
            LoggerMode::Verbose
        } else {
            LoggerMode::Disabled
        },
    }
}

// ---------------------------------------------------------------------------
// Properties

/// An argument that is neither a switch nor empty: a word of the text.
pub open spec fn is_text_word(w: Seq<char>) -> bool {
    w.len() > 0 && w[0] != '-'
}

/// Words read one after another join into the text with single spaces.
proof fn lemma_words_join(m: ConfigModel, done: Seq<Seq<char>>, args: Seq<Seq<char>>)
    requires
        forall|i: int| 0 <= i < done.len() ==> is_text_word(#[trigger] done[i]),
        forall|i: int| 0 <= i < args.len() ==> is_text_word(#[trigger] args[i]),
        m.text_input == join(done, seq![' ']),
    ensures
        apply_args(m, args) == (ConfigModel { text_input: join(done + args, seq![' ']), ..m }),
    decreases args.len(),
{
    if args.len() == 0 {
        assert(done + args =~= done);
    } else {
        let w = args[0];
        assert(is_text_word(w));
        assert(w != seq!['-', '-']);
        assert(!starts_with(w, seq!['-'])) by {
            assert(w.subrange(0, 1)[0] == w[0]);
        }
        assert(!starts_with(w, seq!['-', '-'])) by {
            if w.len() >= 2 {
                assert(w.subrange(0, 2)[0] == w[0]);
            }
        }
        let next = done.push(w);
        assert(next.drop_last() =~= done);
        if done.len() == 0 {
            assert(m.text_input.len() == 0);
            assert(join(next, seq![' ']) == w);
        } else {
            assert(join(done, seq![' ']).len() > 0) by {
                lemma_join_nonempty(done);
            }
            assert(join(next, seq![' ']) =~= m.text_input.push(' ') + w);
        }
        assert forall|i: int| 0 <= i < next.len() implies is_text_word(#[trigger] next[i]) by {
            if i < done.len() {
                assert(next[i] == done[i]);
            }
        }
        assert forall|i: int| 0 <= i < args.drop_first().len() implies is_text_word(
            #[trigger] args.drop_first()[i],
        ) by {
            assert(args.drop_first()[i] == args[i + 1]);
        }
        let m2 = ConfigModel { text_input: join(next, seq![' ']), ..m };
        assert(apply_word(m, w) == m2);
        lemma_words_join(m2, next, args.drop_first());
        assert(next + args.drop_first() =~= done + args);
    }
}

/// Joining words that are not empty gives text that is not empty.
proof fn lemma_join_nonempty(list: Seq<Seq<char>>)
    requires
        list.len() > 0,
        forall|i: int| 0 <= i < list.len() ==> is_text_word(#[trigger] list[i]),
    ensures
        join(list, seq![' ']).len() > 0,
    decreases list.len(),
{
    if list.len() > 1 {
        assert(is_text_word(list[list.len() - 1]));
    } else {
        assert(is_text_word(list[0]));
    }
}

/// A command line of words only sets nothing but the text, which is the
/// words joined with single spaces; the colour mode then comes from the
/// terminal.
pub proof fn lemma_words_only_command_line(args: Seq<Seq<char>>, env: Environment)
    requires
        forall|i: int| 0 <= i < args.len() ==> is_text_word(#[trigger] args[i]),
    ensures
        parse_model(args, env) == (ConfigModel {
            text_input: join(args, seq![' ']),
            color_mode: if args.len() == 0 {
                ColorMode::Default
            } else {
                color_support(env)
            },
            ..initial_model(env)
        }),
{
    assert(join(Seq::<Seq<char>>::empty(), seq![' ']) =~= Seq::<char>::empty());
    lemma_words_join(initial_model(env), Seq::empty(), args);
    assert(Seq::<Seq<char>>::empty() + args =~= args);
}

/// The switches `--no-markup` and `-m`.
pub open spec fn is_no_markup_switch(w: Seq<char>) -> bool {
    w == seq!['-', '-', 'n', 'o', '-', 'm', 'a', 'r', 'k', 'u', 'p'] || w == seq!['-', 'm']
}

/// No argument turns `--no-markup` off again.
proof fn lemma_no_markup_stays(m: ConfigModel, args: Seq<Seq<char>>)
    requires
        m.no_markup,
    ensures
        apply_args(m, args).no_markup,
    decreases args.len(),
{
    if args.len() > 0 && args[0] != seq!['-', '-'] {
        let w = args[0];
        if !starts_with(w, seq!['-', '-']) && starts_with(w, seq!['-']) {
            lemma_shorthands_keep_no_markup(m, w.skip(1));
        }
        lemma_no_markup_stays(apply_word(m, w), args.drop_first());
    }
}

/// No shorthand letter turns `--no-markup` off.
proof fn lemma_shorthands_keep_no_markup(m: ConfigModel, group: Seq<char>)
    requires
        m.no_markup,
    ensures
        apply_shorthands(m, group).no_markup,
    decreases group.len(),
{
    if group.len() > 0 {
        lemma_shorthands_keep_no_markup(apply_shorthand(m, group[0]), group.drop_first());
    }
}

/// `--no-markup` or `-m` anywhere before `--` makes the text print as it is:
/// the command line's configuration has `no_markup` set.
pub proof fn lemma_no_markup_switch_sets_it(args: Seq<Seq<char>>, env: Environment, i: int)
    requires
        0 <= i < args.len(),
        is_no_markup_switch(args[i]),
        forall|k: int| 0 <= k < i ==> #[trigger] args[k] != seq!['-', '-'],
    ensures
        parse_model(args, env).no_markup,
{
    lemma_no_markup_reached(initial_model(env), args, i);
}

/// The configuration reaches `no_markup` at the switch and keeps it.
proof fn lemma_no_markup_reached(m: ConfigModel, args: Seq<Seq<char>>, i: int)
    requires
        0 <= i < args.len(),
        is_no_markup_switch(args[i]),
        forall|k: int| 0 <= k < i ==> #[trigger] args[k] != seq!['-', '-'],
    ensures
        apply_args(m, args).no_markup,
    decreases i,
{
    let w = args[0];
    if i == 0 {
        reveal_strlit("help");
        reveal_strlit("version");
        reveal_strlit("listc");
        reveal_strlit("listcb");
        reveal_strlit("lists");
        reveal_strlit("no-markup");
        assert(w != seq!['-', '-']);
        if w == seq!['-', 'm'] {
            assert(!starts_with(w, seq!['-', '-']));
            assert(w.take(1) =~= seq!['-']);
            assert(starts_with(w, seq!['-']));
            assert(w.skip(1) =~= seq!['m']);
            assert(seq!['m'].drop_first() =~= Seq::<char>::empty());
            assert(seq!['m'][0] == 'm');
            let m1 = apply_shorthand(m, 'm');
            assert(m1.no_markup);
            assert(apply_shorthands(m1, Seq::<char>::empty()) == m1);
            assert(apply_shorthands(m, seq!['m']) == m1);
        } else {
            assert(w.take(2) =~= seq!['-', '-']);
            assert(starts_with(w, seq!['-', '-']));
            assert(w.skip(2) =~= "no-markup"@);
            assert("no-markup"@ != "help"@);
            assert("no-markup"@ != "version"@);
            assert("no-markup"@ != "listc"@);
            assert("no-markup"@ != "listcb"@);
            assert("no-markup"@ != "lists"@);
            assert(apply_switch(m, "no-markup"@).no_markup);
        }
        assert(apply_word(m, w).no_markup);
        lemma_no_markup_stays(apply_word(m, w), args.drop_first());
    } else {
        assert(w != seq!['-', '-']);
        assert forall|k: int| 0 <= k < i - 1 implies #[trigger] args.drop_first()[k] != seq![
            '-',
            '-',
        ] by {
            assert(args.drop_first()[k] == args[k + 1]);
        }
        lemma_no_markup_reached(apply_word(m, w), args.drop_first(), i - 1);
    }
}

} // verus!
