//! What the shell tells a completion request: the line being edited, the
//! word under the cursor, and which shell asks.
use vstd::prelude::*;
use crate::casing::{ascii_lower_char, is_ascii_text, lowercase, lowercase_of, snake_case, snake_case_of};
use crate::flag::{contains_string, opt_view, special_argument, take_argument, Flag};
use crate::suggest::{without_texts, Suggest, suggest_view};
use crate::text::{
    owned, parse_usize, parse_usize_spec, replace_char, replace_char_spec, split_whitespace,
    starts_with, str_eq, trim, trim_spec, views, words,
};

verus! {

/// The shell a completion request comes from.
#[derive(Debug, PartialEq, Eq)]
pub enum ShellFlag {
    Bash,
    Zsh,
    Fish,
    Powershell,
    Elvish,
    Nushell,
    /// Any other shell, by its snake_case name.
    Other(String),
}

/// Whether `f` is the shell named `l`, a trimmed lower-case name.
pub open spec fn shell_named(l: Seq<char>, f: ShellFlag) -> bool {
    if l == "zsh"@ {
        f is Zsh
    } else if l == "bash"@ {
        f is Bash
    } else if l == "fish"@ {
        f is Fish
    } else if l == "pwsh"@ || l == "ps1"@ || l == "powershell"@ {
        f is Powershell
    } else if l == "elvish"@ || l == "elv"@ {
        f is Elvish
    } else if l == "nushell"@ || l == "nu"@ {
        f is Nushell
    } else {
        match f {
            ShellFlag::Other(t) => t@ == snake_case_of(l),
            _ => false,
        }
    }
}

/// The name a shell flag is written as.
pub open spec fn shell_flag_name(f: ShellFlag) -> Seq<char> {
    match f {
        ShellFlag::Zsh => "zsh"@,
        ShellFlag::Bash => "bash"@,
        ShellFlag::Fish => "fish"@,
        ShellFlag::Powershell => "powershell"@,
        ShellFlag::Elvish => "elvish"@,
        ShellFlag::Nushell => "nushell"@,
        ShellFlag::Other(s) => s@,
    }
}

impl ShellFlag {
    /// The shell named by `s`: surrounding white space is ignored and the
    /// name is compared in lower case; unknown names become `Other` with
    /// the name in snake_case.
    pub fn parse_name(s: &str) -> (r: ShellFlag)
        ensures
            shell_named(lowercase_of(trim_spec(s@)), r),
            is_ascii_text(trim_spec(s@)) ==> shell_named(trim_spec(s@).map_values(|c: char| ascii_lower_char(c)), r),
    {
        let t = trim(s);
        let l = lowercase(t.as_str());
        let n = l.as_str();
        if str_eq(n, "zsh") {
            ShellFlag::Zsh
        } else if str_eq(n, "bash") {
            ShellFlag::Bash
        } else if str_eq(n, "fish") {
            ShellFlag::Fish
        } else if str_eq(n, "pwsh") || str_eq(n, "ps1") || str_eq(n, "powershell") {
            ShellFlag::Powershell
        } else if str_eq(n, "elvish") || str_eq(n, "elv") {
            ShellFlag::Elvish
        } else if str_eq(n, "nushell") || str_eq(n, "nu") {
            ShellFlag::Nushell
        } else {
            ShellFlag::Other(snake_case(n))
        }
    }

    /// The name the shell is written as.
    pub fn name(&self) -> (r: String)
        ensures
            r@ == shell_flag_name(*self),
    {
        match self {
            ShellFlag::Zsh => owned("zsh"),
            ShellFlag::Bash => owned("bash"),
            ShellFlag::Fish => owned("fish"),
            ShellFlag::Powershell => owned("powershell"),
            ShellFlag::Elvish => owned("elvish"),
            ShellFlag::Nushell => owned("nushell"),
            ShellFlag::Other(s) => s.clone(),
        }
    }
}

impl Clone for ShellFlag {
    fn clone(&self) -> (r: ShellFlag)
        ensures
            shell_flag_name(r) == shell_flag_name(*self),
            (r is Other) == (*self is Other),
            !(r is Other) ==> r == *self,
    {
        match self {
            ShellFlag::Bash => ShellFlag::Bash,
            ShellFlag::Zsh => ShellFlag::Zsh,
            ShellFlag::Fish => ShellFlag::Fish,
            ShellFlag::Powershell => ShellFlag::Powershell,
            ShellFlag::Elvish => ShellFlag::Elvish,
            ShellFlag::Nushell => ShellFlag::Nushell,
            ShellFlag::Other(s) => ShellFlag::Other(s.clone()),
        }
    }
}

impl Default for ShellFlag {
    fn default() -> (r: ShellFlag)
        ensures
            r is Bash,
    {
        ShellFlag::Bash
    }
}

impl From<String> for ShellFlag {
    fn from(s: String) -> (r: ShellFlag)
        ensures
            shell_named(lowercase_of(trim_spec(s@)), r),
    {
        ShellFlag::parse_name(s.as_str())
    }
}

impl vstd::std_specs::convert::FromSpecImpl<String> for ShellFlag {
    open spec fn obeys_from_spec() -> bool {
        false
    }

    open spec fn from_spec(v: String) -> ShellFlag {
        vstd::pervasive::arbitrary()
    }
}

impl From<ShellFlag> for String {
    fn from(flag: ShellFlag) -> (r: String)
        ensures
            r@ == shell_flag_name(flag),
    {
        flag.name()
    }
}

impl vstd::std_specs::convert::FromSpecImpl<ShellFlag> for String {
    open spec fn obeys_from_spec() -> bool {
        false
    }

    open spec fn from_spec(v: ShellFlag) -> String {
        vstd::pervasive::arbitrary()
    }
}

/// The state of the command line that a completion request describes.
#[derive(Debug)]
pub struct ShellContext {
    /// The whole command line.
    pub command_line: String,
    /// Where the cursor stands in the line.
    pub cursor_position: usize,
    /// The word under the cursor.
    pub current_word: String,
    /// The word before it.
    pub previous_word: String,
    /// The command being completed.
    pub command_name: String,
    /// The index of the word under the cursor.
    pub word_index: usize,
    /// The words of the command line.
    pub all_words: Vec<String>,
    /// The shell that asks.
    pub shell_flag: ShellFlag,
}

impl Default for ShellContext {
    fn default() -> (r: ShellContext)
        ensures
            r.command_line@.len() == 0,
            r.cursor_position == 0,
            r.current_word@.len() == 0,
            r.previous_word@.len() == 0,
            r.command_name@.len() == 0,
            r.word_index == 0,
            r.all_words@.len() == 0,
            r.shell_flag is Bash,
    {
        ShellContext {
            command_line: String::new(),
            cursor_position: 0,
            current_word: String::new(),
            previous_word: String::new(),
            command_name: String::new(),
            word_index: 0,
            all_words: Vec::new(),
            shell_flag: ShellFlag::Bash,
        }
    }
}

/// The text of an optional argument, empty when it is absent.
pub open spec fn text_or_empty(o: Option<Seq<char>>) -> Seq<char> {
    match o {
        Some(t) => t,
        None => Seq::empty(),
    }
}

/// The number written in an optional argument, 0 when it is absent or is
/// not a number.
pub open spec fn number_or_zero(o: Option<Seq<char>>) -> usize {
    match o {
        Some(t) => match parse_usize_spec(t) {
            Some(n) => n,
            None => 0,
        },
        None => 0,
    }
}

/// `s` with every `^` turned into `-` (how shells pass a dash through).
pub open spec fn undash(s: Seq<char>) -> Seq<char> {
    replace_char_spec(s, '^', '-')
}

/// The context a completion request describes, read from the arguments the
/// shell passes: `-f` the line, `-C` the cursor, `-w` the current word,
/// `-p` the previous word, `-c` the command, `-i` the word index and `-F`
/// the shell.
pub open spec fn context_of(args: Seq<Seq<char>>, r: ShellContext) -> bool {
    let (f, a1) = take_argument(args, "-f"@);
    let (c, a2) = take_argument(a1, "-C"@);
    let (w, a3) = take_argument(a2, "-w"@);
    let (p, a4) = take_argument(a3, "-p"@);
    let (n, a5) = take_argument(a4, "-c"@);
    let (i, a6) = take_argument(a5, "-i"@);
    let line = text_or_empty(f);
    &&& r.command_line@ == undash(line)
    &&& r.cursor_position == number_or_zero(c)
    &&& r.current_word@ == undash(text_or_empty(w))
    &&& r.previous_word@ == undash(text_or_empty(p))
    &&& r.command_name@ == undash(text_or_empty(n))
    &&& r.word_index == number_or_zero(i)
    &&& views(r.all_words@) == words(line).map_values(|x: Seq<char>| undash(x))
    &&& a6.contains("-F"@) ==> match take_argument(a6, "-F"@).0 {
        Some(v) => shell_named(lowercase_of(trim_spec(v)), r.shell_flag),
        None => (r.shell_flag matches ShellFlag::Other(t) && t@.len() == 0),
    }
    &&& !a6.contains("-F"@) ==> (r.shell_flag matches ShellFlag::Other(t) && t@ == "unknown"@)
}

/// Whether `word` is typed as a flag: it starts with `-`.
pub open spec fn is_typed_flag(word: Seq<char>) -> bool {
    word.len() > 0 && word[0] == '-'
}

/// The distinct words of `ws[..k]` that start with `-`, in order of first
/// appearance.
pub open spec fn typed_words(ws: Seq<Seq<char>>, k: int) -> Seq<Seq<char>>
    decreases k,
{
    if k <= 0 {
        Seq::empty()
    } else if is_typed_flag(ws[k - 1]) && !typed_words(ws, k - 1).contains(ws[k - 1]) {
        typed_words(ws, k - 1).push(ws[k - 1])
    } else {
        typed_words(ws, k - 1)
    }
}

/// How many spellings in `fl` equal `w`.
pub open spec fn count_equal(fl: Seq<Seq<char>>, w: Seq<char>, j: int) -> nat
    decreases j,
{
    if j <= 0 {
        0
    } else {
        count_equal(fl, w, j - 1) + (if fl[j - 1] == w { 1nat } else { 0nat })
    }
}

/// How many (word, spelling) pairs of `ws[..k]` and `fl` are equal.
pub open spec fn flag_appearances(ws: Seq<Seq<char>>, fl: Seq<Seq<char>>, k: int) -> nat
    decreases k,
{
    if k <= 0 {
        0
    } else {
        flag_appearances(ws, fl, k - 1) + count_equal(fl, ws[k - 1], fl.len() as int)
    }
}

/// Whether the word before the cursor is one of the spellings `fl`.
pub open spec fn fills_argument(ctx: ShellContext, fl: Seq<Seq<char>>) -> bool {
    fl.contains(ctx.previous_word@)
}

/// Whether the argument is being filled for a flag that appears exactly
/// once among the words of the line.
pub open spec fn fills_argument_first(ctx: ShellContext, fl: Seq<Seq<char>>) -> bool {
    fills_argument(ctx, fl) && flag_appearances(views(ctx.all_words@), fl, ctx.all_words@.len() as int) == 1
}

/// Whether `s` starts with `-`.
pub fn starts_with_dash(s: &str) -> (r: bool)
    ensures
        r == is_typed_flag(s@),
{
    proof {
        reveal_strlit("-");
    }
    let r = starts_with(s, "-");
    proof {
        assert("-"@ =~= seq!['-']);
        if s@.len() > 0 {
            assert(s@.take(1) =~= seq![s@[0]]);
            if s@[0] == '-' {
                assert(s@.take(1) =~= "-"@);
            } else {
                assert(s@.take(1)[0] != "-"@[0]);
            }
        }
    }
    r
}

proof fn lemma_typed_words_distinct(ws: Seq<Seq<char>>, k: int)
    requires
        0 <= k <= ws.len(),
    ensures
        typed_words(ws, k).no_duplicates(),
        forall|x: Seq<char>| #[trigger] typed_words(ws, k).contains(x) <==> exists|j: int| 0 <= j < k && ws[j] == x && is_typed_flag(x),
    decreases k,
{
    if k > 0 {
        lemma_typed_words_distinct(ws, k - 1);
        let prev = typed_words(ws, k - 1);
        assert forall|x: Seq<char>| #[trigger] typed_words(ws, k).contains(x) <==> exists|j: int| 0 <= j < k && ws[j] == x && is_typed_flag(x) by {
            if typed_words(ws, k).contains(x) {
                if prev.contains(x) {
                    let j = choose|j: int| 0 <= j < k - 1 && ws[j] == x && is_typed_flag(x);
                    assert(0 <= j < k && ws[j] == x && is_typed_flag(x));
                } else {
                    assert(ws[k - 1] == x);
                }
            }
            if exists|j: int| 0 <= j < k && ws[j] == x && is_typed_flag(x) {
                let j = choose|j: int| 0 <= j < k && ws[j] == x && is_typed_flag(x);
                if j < k - 1 {
                    assert(prev.contains(x));
                    if !(is_typed_flag(ws[k - 1]) && !prev.contains(ws[k - 1])) {
                    } else {
                        assert(prev.push(ws[k - 1])[prev.index_of(x)] == x);
                    }
                } else {
                    if is_typed_flag(ws[k - 1]) && !prev.contains(ws[k - 1]) {
                        assert(prev.push(ws[k - 1])[prev.len() as int] == x);
                    }
                }
            }
        }
    }
}

impl ShellContext {
    /// The context described by the arguments a shell passes to a
    /// completion request.
    pub fn from_args(args: Vec<String>) -> (r: ShellContext)
        ensures
            context_of(views(args@), r),
    {
        let mut args = args;
        let f = special_argument(&mut args, "-f");
        let c = special_argument(&mut args, "-C");
        let w = special_argument(&mut args, "-w");
        let p = special_argument(&mut args, "-p");
        let n = special_argument(&mut args, "-c");
        let i = special_argument(&mut args, "-i");
        let command_line = match f {
            Some(s) => s,
            None => String::new(),
        };
        let cursor_position = match c {
            Some(s) => match parse_usize(s.as_str()) {
                Some(v) => v,
                None => 0,
            },
            None => 0,
        };
        let current_word = match w {
            Some(s) => s,
            None => String::new(),
        };
        let previous_word = match p {
            Some(s) => s,
            None => String::new(),
        };
        let command_name = match n {
            Some(s) => s,
            None => String::new(),
        };
        let word_index = match i {
            Some(s) => match parse_usize(s.as_str()) {
                Some(v) => v,
                None => 0,
            },
            None => 0,
        };
        let has_shell_flag = contains_string(&args, "-F");
        let shell_flag = if has_shell_flag {
            match special_argument(&mut args, "-F") {
                Some(v) => ShellFlag::from(v),
                None => ShellFlag::Other(String::new()),
            }
        } else {
            ShellFlag::Other(owned("unknown"))
        };
        let split = split_whitespace(command_line.as_str());
        let mut all_words: Vec<String> = Vec::new();
        let mut k: usize = 0;
        while k < split.len()
            invariant
                k <= split@.len(),
                views(split@) == words(command_line@),
                views(all_words@) == words(command_line@).take(k as int).map_values(|x: Seq<char>| undash(x)),
            decreases split@.len() - k,
        {
            let ghost prev = views(all_words@);
            let u = replace_char(split[k].as_str(), '^', '-');
            all_words.push(u);
            proof {
                assert(views(all_words@) =~= prev.push(undash(split@[k as int]@)));
                assert(words(command_line@).take(k + 1).map_values(|x: Seq<char>| undash(x)) =~= words(
                    command_line@,
                ).take(k as int).map_values(|x: Seq<char>| undash(x)).push(undash(split@[k as int]@)));
            }
            k = k + 1;
        }
        proof {
            assert(words(command_line@).take(split@.len() as int) =~= words(command_line@));
        }
        ShellContext {
            command_line: replace_char(command_line.as_str(), '^', '-'),
            cursor_position,
            current_word: replace_char(current_word.as_str(), '^', '-'),
            previous_word: replace_char(previous_word.as_str(), '^', '-'),
            command_name: replace_char(command_name.as_str(), '^', '-'),
            word_index,
            all_words,
            shell_flag,
        }
    }

    /// Whether the word before the cursor is one of the spellings of
    /// `flag`, that is, whether the user is filling that flag's argument.
    pub fn filling_argument<F>(&self, flag: F) -> (r: bool)
        where Flag: From<F>,
        ensures
            exists|fl: Flag| call_ensures(<Flag as From<F>>::from, (flag,), fl) && r == fills_argument(*self, fl@),
    {
        let fl: Flag = Flag::from(flag);
        let r = fl.matches(self.previous_word.as_str());
        r
    }

    /// Whether the user is filling the argument of `flag` and the flag
    /// appears exactly once among the words of the line.
    pub fn filling_argument_first<F>(&self, flag: F) -> (r: bool)
        where Flag: From<F>,
        ensures
            exists|fl: Flag| call_ensures(<Flag as From<F>>::from, (flag,), fl) && r == fills_argument_first(*self, fl@),
    {
        let fl: Flag = Flag::from(flag);
        if !fl.matches(self.previous_word.as_str()) {
            return false;
        }
        let names = fl.as_ref();
        let ghost ws = views(self.all_words@);
        let ghost fs = fl@;
        let mut appears: u8 = 0;
        let mut i: usize = 0;
        while i < self.all_words.len()
            invariant
                ws == views(self.all_words@),
                fs == views(names@),
                i <= ws.len(),
                appears <= 2,
                appears == (if flag_appearances(ws, fs, i as int) < 2 { flag_appearances(ws, fs, i as int) } else { 2 }),
            decreases ws.len() - i,
        {
            let mut j: usize = 0;
            let ghost base = flag_appearances(ws, fs, i as int);
            while j < names.len()
                invariant
                    ws == views(self.all_words@),
                    fs == views(names@),
                    i < ws.len(),
                    j <= fs.len(),
                    appears <= 2,
                    appears == (if base + count_equal(fs, ws[i as int], j as int) < 2 {
                        base + count_equal(fs, ws[i as int], j as int)
                    } else {
                        2
                    }),
                decreases fs.len() - j,
            {
                if str_eq(names[j].as_str(), self.all_words[i].as_str()) {
                    if appears < 2 {
                        appears = appears + 1;
                    }
                }
                j = j + 1;
            }
            i = i + 1;
        }
        appears == 1
    }

    /// Whether the word under the cursor is being typed as a flag: it
    /// starts with `-`; on Windows (`windows`, the platform the program
    /// runs on) an empty word counts too.
    pub fn typing_argument(&self, windows: bool) -> (r: bool)
        ensures
            r == (if windows {
                self.current_word@.len() == 0 || is_typed_flag(self.current_word@)
            } else {
                is_typed_flag(self.current_word@)
            }),
    {
        let dash = starts_with_dash(self.current_word.as_str());
        if windows {
            self.current_word.unicode_len() == 0 || dash
        } else {
            dash
        }
    }

    /// The words of the line typed as flags, each once, in order of first
    /// appearance.
    pub fn get_typed_arguments(&self) -> (r: Vec<String>)
        ensures
            views(r@) == typed_words(views(self.all_words@), self.all_words@.len() as int),
            views(r@).no_duplicates(),
    {
        let ghost ws = views(self.all_words@);
        let mut r: Vec<String> = Vec::new();
        let mut i: usize = 0;
        while i < self.all_words.len()
            invariant
                ws == views(self.all_words@),
                i <= ws.len(),
                views(r@) == typed_words(ws, i as int),
            decreases ws.len() - i,
        {
            let w = &self.all_words[i];
            if starts_with_dash(w.as_str()) && !contains_string(&r, w.as_str()) {
                let ghost prev = views(r@);
                r.push(w.clone());
                proof {
                    assert(views(r@) =~= prev.push(ws[i as int]));
                }
            }
            i = i + 1;
        }
        proof {
            lemma_typed_words_distinct(ws, ws.len() as int);
        }
        r
    }

    /// `suggest` without the suggestions already typed on the line as
    /// flags; a file-completion request passes unchanged.
    pub fn strip_typed_argument(&self, suggest: Suggest) -> (r: Suggest)
        ensures
            match suggest_view(suggest) {
                None => r is FileCompletion,
                Some(s) => suggest_view(r) == Some(
                    without_texts(s, typed_words(views(self.all_words@), self.all_words@.len() as int)),
                ),
            },
    {
        let typed = self.get_typed_arguments();
        match suggest {
            Suggest::Suggest(mut set) => {
                set.remove_texts(&typed);
                Suggest::Suggest(set)
            },
            Suggest::FileCompletion => Suggest::FileCompletion,
        }
    }
}

impl TryFrom<Vec<String>> for ShellContext {
    type Error = String;

    fn try_from(args: Vec<String>) -> (r: Result<ShellContext, String>)
        ensures
            r matches Ok(ctx) && context_of(views(args@), ctx),
    {
        Ok(ShellContext::from_args(args))
    }
}

impl vstd::std_specs::convert::TryFromSpecImpl<Vec<String>> for ShellContext {
    open spec fn obeys_try_from_spec() -> bool {
        false
    }

    open spec fn try_from_spec(v: Vec<String>) -> Result<ShellContext, String> {
        vstd::pervasive::arbitrary()
    }
}

impl Suggest {
    /// These suggestions without those already typed on the line of `ctx`
    /// as flags; a file-completion request passes unchanged.
    pub fn strip_typed_argument(self, ctx: &ShellContext) -> (r: Suggest)
        ensures
            match suggest_view(self) {
                None => r is FileCompletion,
                Some(s) => suggest_view(r) == Some(
                    without_texts(s, typed_words(views(ctx.all_words@), ctx.all_words@.len() as int)),
                ),
            },
    {
        ctx.strip_typed_argument(self)
    }
}

} // verus!
