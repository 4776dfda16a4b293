//! The script that starts what an image is made to run.

use crate::image::ImageConfig;
use crate::text::chars_of;
use vstd::prelude::*;

verus! {

/// The permission bits of an entrypoint script: everyone may read and run it.
pub const ENTRYPOINT_MODE: u32 = 0o755;

/// What `char::is_alphanumeric` returns for a character.
pub uninterp spec fn char_is_alphanumeric(c: char) -> bool;

/// Whether `c` is an ASCII letter or digit.
pub open spec fn is_ascii_letter_or_digit(c: char) -> bool {
    'a' <= c <= 'z' || 'A' <= c <= 'Z' || '0' <= c <= '9'
}

/// `char::is_alphanumeric` goes by the Unicode properties of the character alone. The ASCII
/// characters with those properties are the letters and the digits.
#[verifier::external_body]
fn is_alphanumeric(c: char) -> (alphanumeric: bool)
    ensures
        alphanumeric == char_is_alphanumeric(c),
        (c as u32) < 128 ==> alphanumeric == is_ascii_letter_or_digit(c),
{
    c.is_alphanumeric()
}

/// Whether a character stands for itself in a word that is not quoted.
pub open spec fn is_plain_char(c: char) -> bool {
    char_is_alphanumeric(c) || c == '-' || c == '_' || c == '.' || c == '/'
}

/// Whether `char::is_alphanumeric` tells the ASCII letters and digits of a text from its other
/// ASCII characters.
pub open spec fn ascii_is_known(text: Seq<char>) -> bool {
    forall|i: int|
        0 <= i < text.len() && (text[i] as u32) < 128 ==> #[trigger] char_is_alphanumeric(text[i])
            == is_ascii_letter_or_digit(text[i])
}

/// Whether a word needs no quotes: every character of it stands for itself.
pub open spec fn is_plain(word: Seq<char>) -> bool {
    forall|i: int| 0 <= i < word.len() ==> is_plain_char(#[trigger] word[i])
}

/// What stands for a character between single quotes: the character, but for a single quote,
/// for which the quotes are closed, a single quote in double quotes follows, and the quotes are
/// opened again.
pub open spec fn in_single_quotes(c: char) -> Seq<char> {
    if c == '\'' {
        seq!['\'', '"', '\'', '"', '\'']
    } else {
        seq![c]
    }
}

/// What stands for a word between single quotes.
pub open spec fn quoted(word: Seq<char>) -> Seq<char>
    decreases word.len(),
{
    if word.len() == 0 {
        Seq::empty()
    } else {
        quoted(word.drop_last()) + in_single_quotes(word.last())
    }
}

/// A word as it is written in a script: as it is where it is plain, in single quotes otherwise.
pub open spec fn escaped(word: Seq<char>, plain: bool) -> Seq<char> {
    if plain {
        word
    } else {
        seq!['\''] + quoted(word) + seq!['\'']
    }
}

/// Returns the word as it is written in a script, given whether it is plain.
pub fn escape_word(word: &str, plain: bool) -> (text: String)
    ensures
        text@ == escaped(word@, plain),
{
    if plain {
        return word.to_owned();
    }
    let chars: Vec<char> = chars_of(word);
    let mut text: String = String::new();
    text.push('\'');
    let mut i: usize = 0;
    while i < chars.len()
        invariant
            chars@ == word@,
            i <= chars@.len(),
            text@ == seq!['\''] + quoted(word@.take(i as int)),
        decreases chars@.len() - i,
    {
        let c: char = chars[i];
        let ghost before = text@;
        assert(word@.take(i + 1).drop_last() =~= word@.take(i as int));
        if c == '\'' {
            text.push('\'');
            text.push('"');
            text.push('\'');
            text.push('"');
            text.push('\'');
        } else {
            text.push(c);
        }
        assert(text@ =~= before + in_single_quotes(c));
        assert(text@ =~= seq!['\''] + quoted(word@.take(i + 1)));
        i += 1;
    }
    assert(word@.take(i as int) =~= word@);
    text.push('\'');
    text
}

/// How the shell treats the characters that it reads.
pub enum Quoting {
    /// Outside of quotes.
    Bare,
    /// Between single quotes.
    Single,
    /// Between double quotes.
    Double,
}

/// How far the shell has read a line: the words that are complete, and the one that is not.
pub struct Reading {
    /// How the next character is treated.
    pub quoting: Quoting,
    /// The words that are complete.
    pub words: Seq<Seq<char>>,
    /// The word that is being read, if one has begun.
    pub word: Option<Seq<char>>,
}

/// Whether the shell gives a meaning of its own to a character outside of quotes.
pub open spec fn has_meaning(c: char) -> bool {
    ||| c == ' ' || c == '\t' || c == '\n' || c == '\r'
    ||| c == '|' || c == '&' || c == ';' || c == '<' || c == '>' || c == '(' || c == ')'
    ||| c == '$' || c == '`' || c == '\\' || c == '"' || c == '\''
    ||| c == '*' || c == '?' || c == '[' || c == ']' || c == '{' || c == '}'
    ||| c == '#' || c == '~' || c == '=' || c == '%' || c == '!' || c == '^'
}

impl Reading {
    /// Nothing has been read.
    pub open spec fn start() -> Reading {
        Reading { quoting: Quoting::Bare, words: Seq::empty(), word: None }
    }

    /// The word as far as it has been read.
    pub open spec fn begun(self) -> Seq<char> {
        match self.word {
            Some(word) => word,
            None => Seq::empty(),
        }
    }

    /// What reading one more character comes to; `None` where the shell would do more than
    /// collect words.
    pub open spec fn read(self, c: char) -> Option<Reading> {
        match self.quoting {
            Quoting::Bare => if c == '\'' {
                Some(Reading { quoting: Quoting::Single, word: Some(self.begun()), ..self })
            } else if c == '"' {
                Some(Reading { quoting: Quoting::Double, word: Some(self.begun()), ..self })
            } else if c == ' ' {
                match self.word {
                    Some(word) => Some(
                        Reading { words: self.words.push(word), word: None, ..self },
                    ),
                    None => Some(self),
                }
            } else if has_meaning(c) {
                None
            } else {
                Some(Reading { word: Some(self.begun().push(c)), ..self })
            },
            Quoting::Single => if c == '\'' {
                Some(Reading { quoting: Quoting::Bare, ..self })
            } else {
                Some(Reading { word: Some(self.begun().push(c)), ..self })
            },
            Quoting::Double => if c == '"' {
                Some(Reading { quoting: Quoting::Bare, ..self })
            } else if c == '$' || c == '`' || c == '\\' || c == '!' {
                None
            } else {
                Some(Reading { word: Some(self.begun().push(c)), ..self })
            },
        }
    }
}

/// How far the shell is after it has read `text`.
pub open spec fn reading_of(text: Seq<char>) -> Option<Reading>
    decreases text.len(),
{
    if text.len() == 0 {
        Some(Reading::start())
    } else {
        match reading_of(text.drop_last()) {
            Some(reading) => reading.read(text.last()),
            None => None,
        }
    }
}

/// The words that the shell reads in `text`; `None` where the quotes are not closed, or where the
/// shell would do more than collect words.
pub open spec fn shell_words(text: Seq<char>) -> Option<Seq<Seq<char>>> {
    match reading_of(text) {
        Some(Reading { quoting: Quoting::Bare, words, word: Some(word) }) => Some(words.push(word)),
        Some(Reading { quoting: Quoting::Bare, words, word: None }) => Some(words),
        _ => None,
    }
}

/// Reading one character more.
proof fn lemma_read_one(text: Seq<char>, c: char)
    ensures
        reading_of(text.push(c)) == match reading_of(text) {
            Some(reading) => reading.read(c),
            None => None,
        },
{
    assert(text.push(c).drop_last() =~= text);
}

/// Between single quotes the shell reads a quoted word as the word itself.
proof fn lemma_read_quoted(text: Seq<char>, words: Seq<Seq<char>>, word: Seq<char>)
    requires
        reading_of(text) == Some(Reading { quoting: Quoting::Bare, words, word: None }),
    ensures
        reading_of(text + seq!['\''] + quoted(word)) == Some(
            Reading { quoting: Quoting::Single, words, word: Some(word) },
        ),
    decreases word.len(),
{
    if word.len() == 0 {
        lemma_read_one(text, '\'');
        assert(word =~= Seq::empty());
        assert(text + seq!['\''] + quoted(word) =~= text.push('\''));
    } else {
        let rest = word.drop_last();
        let c = word.last();
        lemma_read_quoted(text, words, rest);
        let before = text + seq!['\''] + quoted(rest);
        assert(rest.push(c) =~= word);
        if c == '\'' {
            lemma_read_one(before, '\'');
            lemma_read_one(before.push('\''), '"');
            lemma_read_one(before.push('\'').push('"'), '\'');
            lemma_read_one(before.push('\'').push('"').push('\''), '"');
            lemma_read_one(before.push('\'').push('"').push('\'').push('"'), '\'');
            assert(text + seq!['\''] + quoted(word) =~= before.push('\'').push('"').push(
                '\'',
            ).push('"').push('\''));
        } else {
            lemma_read_one(before, c);
            assert(text + seq!['\''] + quoted(word) =~= before.push(c));
        }
    }
}

/// The shell reads a word of characters without a meaning of their own as the word itself.
proof fn lemma_read_bare(text: Seq<char>, words: Seq<Seq<char>>, word: Seq<char>)
    requires
        reading_of(text) == Some(Reading { quoting: Quoting::Bare, words, word: None }),
        word.len() > 0,
        forall|i: int| 0 <= i < word.len() ==> !has_meaning(#[trigger] word[i]),
    ensures
        reading_of(text + word) == Some(
            Reading { quoting: Quoting::Bare, words, word: Some(word) },
        ),
    decreases word.len(),
{
    let rest = word.drop_last();
    let c = word.last();
    assert(c == word[word.len() - 1]);
    assert(text + word =~= (text + rest).push(c));
    assert(word =~= rest.push(c));
    lemma_read_one(text + rest, c);
    if rest.len() == 0 {
        assert(rest =~= Seq::empty());
        assert(text + rest =~= text);
    } else {
        assert forall|i: int| 0 <= i < rest.len() implies !has_meaning(#[trigger] rest[i]) by {
            assert(rest[i] == word[i]);
        }
        lemma_read_bare(text, words, rest);
    }
}

/// Whether a word, written plain or quoted, is one that the shell reads back: a plain one has
/// characters, none of which has a meaning of its own.
pub open spec fn reads_back(word: Seq<char>, plain: bool) -> bool {
    plain ==> word.len() > 0 && forall|i: int|
        0 <= i < word.len() ==> !has_meaning(#[trigger] word[i])
}

/// After complete words, the shell reads an escaped word as the word itself.
proof fn lemma_read_escaped(
    text: Seq<char>,
    words: Seq<Seq<char>>,
    word: Seq<char>,
    plain: bool,
)
    requires
        reading_of(text) == Some(Reading { quoting: Quoting::Bare, words, word: None }),
        reads_back(word, plain),
    ensures
        reading_of(text + escaped(word, plain)) == Some(
            Reading { quoting: Quoting::Bare, words, word: Some(word) },
        ),
{
    if plain {
        lemma_read_bare(text, words, word);
    } else {
        lemma_read_quoted(text, words, word);
        let before = text + seq!['\''] + quoted(word);
        lemma_read_one(before, '\'');
        assert(text + escaped(word, plain) =~= before.push('\''));
    }
}

/// Escaping is undone by the shell: it reads a quoted word, whatever characters it has, as that
/// one word, and so it does a word without quotes that has characters, none of which has a
/// meaning of its own.
pub proof fn law_escaping_is_undone(word: Seq<char>, plain: bool)
    requires
        reads_back(word, plain),
    ensures
        shell_words(escaped(word, plain)) == Some(seq![word]),
{
    lemma_read_escaped(Seq::empty(), Seq::empty(), word, plain);
    assert(Seq::<char>::empty() + escaped(word, plain) =~= escaped(word, plain));
    assert(Seq::<Seq<char>>::empty().push(word) =~= seq![word]);
}

/// Returns whether a character stands for itself in a word that is not quoted.
fn stands_for_itself(c: char) -> (plain: bool)
    ensures
        plain == is_plain_char(c),
        plain ==> !has_meaning(c),
        (c as u32) < 128 ==> char_is_alphanumeric(c) == is_ascii_letter_or_digit(c),
{
    is_alphanumeric(c) || c == '-' || c == '_' || c == '.' || c == '/'
}

/// Writes a word so that the shell reads it as that word: as it is where every character is a
/// letter, a digit or one of `-_./`, in single quotes otherwise. The empty word is written as
/// nothing, which the shell does not read as a word.
pub fn shell_escape(s: &str) -> (text: String)
    ensures
        text@ == escaped(s@, is_plain(s@)),
        ascii_is_known(s@),
        s@.len() > 0 ==> reads_back(s@, is_plain(s@)),
        s@.len() > 0 ==> shell_words(text@) == Some(seq![s@]),
{
    let chars: Vec<char> = chars_of(s);
    let mut plain: bool = true;
    let mut i: usize = 0;
    while i < chars.len()
        invariant
            chars@ == s@,
            i <= chars@.len(),
            plain <==> forall|k: int| 0 <= k < i ==> is_plain_char(#[trigger] s@[k]),
            plain ==> forall|k: int| 0 <= k < i ==> !has_meaning(#[trigger] s@[k]),
            ascii_is_known(s@.take(i as int)),
        decreases chars@.len() - i,
    {
        let itself: bool = stands_for_itself(chars[i]);
        assert(ascii_is_known(s@.take(i + 1))) by {
            assert forall|k: int|
                0 <= k < i + 1 && (s@.take(i + 1)[k] as u32) < 128 implies #[trigger]
                char_is_alphanumeric(s@.take(i + 1)[k]) == is_ascii_letter_or_digit(
                s@.take(i + 1)[k],
            ) by {
                if k < i {
                    assert(s@.take(i + 1)[k] == s@.take(i as int)[k]);
                    assert(char_is_alphanumeric(s@.take(i as int)[k]) == is_ascii_letter_or_digit(
                        s@.take(i as int)[k],
                    ));
                }
            }
        }
        if !itself {
            assert(!is_plain_char(s@[i as int]));
            plain = false;
        }
        i += 1;
    }
    assert(s@.take(i as int) =~= s@);
    proof {
        if s@.len() > 0 {
            law_escaping_is_undone(s@, plain);
        }
    }
    escape_word(s, plain)
}

/// What the strings hold.
pub open spec fn texts(strings: Seq<String>) -> Seq<Seq<char>> {
    Seq::new(strings.len(), |i: int| strings[i]@)
}

/// A command line: the words, each escaped, with a space between any two.
pub open spec fn command_text(words: Seq<Seq<char>>) -> Seq<char>
    decreases words.len(),
{
    if words.len() == 0 {
        Seq::empty()
    } else if words.len() == 1 {
        escaped(words[0], is_plain(words[0]))
    } else {
        command_text(words.drop_last()) + " "@ + escaped(words.last(), is_plain(words.last()))
    }
}

/// How far the shell is after it has read a command line of words that it reads back.
proof fn lemma_read_command(words: Seq<Seq<char>>)
    requires
        words.len() > 0,
        forall|i: int| 0 <= i < words.len() ==> #[trigger] reads_back(words[i], is_plain(words[i])),
    ensures
        reading_of(command_text(words)) == Some(
            Reading {
                quoting: Quoting::Bare,
                words: words.drop_last(),
                word: Some(words.last()),
            },
        ),
    decreases words.len(),
{
    let rest = words.drop_last();
    let last = words.last();
    assert(reads_back(words[words.len() - 1], is_plain(words[words.len() - 1])));
    if words.len() == 1 {
        assert(rest =~= Seq::empty());
        lemma_read_escaped(Seq::empty(), Seq::empty(), last, is_plain(last));
        assert(Seq::<char>::empty() + escaped(last, is_plain(last)) =~= command_text(words));
    } else {
        assert forall|i: int| 0 <= i < rest.len() implies #[trigger] reads_back(
            rest[i],
            is_plain(rest[i]),
        ) by {
            assert(rest[i] == words[i]);
        }
        lemma_read_command(rest);
        reveal_strlit(" ");
        let before = command_text(rest) + " "@;
        assert(before =~= command_text(rest).push(' '));
        lemma_read_one(command_text(rest), ' ');
        assert(rest.drop_last().push(rest.last()) =~= rest);
        lemma_read_escaped(before, rest, last, is_plain(last));
    }
}

/// The shell reads a command line as the words that it was made of, where it reads back each of
/// them.
pub proof fn law_command_is_read_back(words: Seq<Seq<char>>)
    requires
        forall|i: int| 0 <= i < words.len() ==> #[trigger] reads_back(words[i], is_plain(words[i])),
    ensures
        shell_words(command_text(words)) == Some(words),
{
    if words.len() > 0 {
        lemma_read_command(words);
        assert(words.drop_last().push(words.last()) =~= words);
    } else {
        assert(words =~= Seq::empty());
    }
}

/// Returns the command line of the words. The shell reads it as these words, where none of them
/// is empty.
pub fn shell_command(words: &Vec<String>) -> (command: String)
    ensures
        command@ == command_text(texts(words@)),
        forall|i: int| 0 <= i < words@.len() ==> ascii_is_known((#[trigger] words@[i])@),
        (forall|i: int| 0 <= i < words@.len() ==> (#[trigger] words@[i])@.len() > 0)
            ==> shell_words(command@) == Some(texts(words@)),
{
    let mut command: String = String::new();
    let ghost all = texts(words@);
    assert(all.take(0) =~= Seq::<Seq<char>>::empty());
    let mut i: usize = 0;
    while i < words.len()
        invariant
            i <= words@.len(),
            all == texts(words@),
            command@ == command_text(all.take(i as int)),
            forall|k: int| 0 <= k < i ==> ascii_is_known((#[trigger] words@[k])@),
            forall|k: int|
                0 <= k < i && all[k].len() > 0 ==> #[trigger] reads_back(all[k], is_plain(all[k])),
        decreases words@.len() - i,
    {
        let word: String = shell_escape(words[i].as_str());
        assert(all.take(i + 1).drop_last() =~= all.take(i as int));
        assert(all.take(i + 1).last() == words@[i as int]@);
        if i > 0 {
            command.append(" ");
        }
        let ghost before = command@;
        command.append(word.as_str());
        assert(i == 0 ==> before + word@ =~= word@);
        assert(reads_back(all[i as int], is_plain(all[i as int])) || all[i as int].len() == 0);
        i += 1;
    }
    proof {
        assert(all.take(i as int) =~= all);
        if forall|k: int| 0 <= k < words@.len() ==> (#[trigger] words@[k])@.len() > 0 {
            assert forall|k: int| 0 <= k < all.len() implies #[trigger] reads_back(
                all[k],
                is_plain(all[k]),
            ) by {
                assert(words@[k]@.len() > 0);
            }
            law_command_is_read_back(all);
        }
    }
    command
}

/// The lines that set the environment variables.
pub open spec fn export_lines(variables: Seq<String>) -> Seq<char>
    decreases variables.len(),
{
    if variables.len() == 0 {
        Seq::empty()
    } else {
        export_lines(variables.drop_last()) + "export "@ + variables.last()@ + "\n"@
    }
}

/// The part of the script that sets the environment.
pub open spec fn environment_part(env: Option<Vec<String>>) -> Seq<char> {
    match env {
        Some(variables) => "# Environment variables\n"@ + export_lines(variables@) + "\n"@,
        None => Seq::empty(),
    }
}

/// The part of the script that goes to the working directory.
pub open spec fn directory_part(working_dir: Option<String>) -> Seq<char> {
    match working_dir {
        Some(directory) => "cd "@ + directory@ + "\n\n"@,
        None => Seq::empty(),
    }
}

/// The part of the script that tells the user to run as.
pub open spec fn user_part(user: Option<String>) -> Seq<char> {
    match user {
        Some(user) => "# Run as user: "@ + user@ + "\n"@,
        None => Seq::empty(),
    }
}

/// The strings of a list that may be missing.
pub open spec fn listed(strings: Option<Vec<String>>) -> Seq<String> {
    match strings {
        Some(strings) => strings@,
        None => Seq::empty(),
    }
}

/// The part of the script that starts the command, or a shell where there is none.
pub open spec fn command_part(words: Seq<String>) -> Seq<char> {
    if words.len() > 0 {
        "# Execute command\n"@ + "exec "@ + command_text(texts(words)) + "\n"@
    } else {
        "# No command specified\n"@ + "exec /bin/bash\n"@
    }
}

/// The words of the command: the entrypoint's, then those of the command.
pub open spec fn command_words(config: ImageConfig) -> Seq<String> {
    listed(config.entrypoint) + listed(config.cmd)
}

/// The whole script.
pub open spec fn script_text(config: ImageConfig) -> Seq<char> {
    "#!/bin/bash\n"@ + "# Auto-generated entrypoint script\n\n"@ + environment_part(config.env)
        + directory_part(config.working_dir) + user_part(config.user) + command_part(
        command_words(config),
    )
}

fn environment(env: &Option<Vec<String>>) -> (part: String)
    ensures
        part@ == environment_part(*env),
{
    match env {
        Some(variables) => {
            let mut lines: String = String::new();
            let mut i: usize = 0;
            assert(variables@.take(0) =~= Seq::<String>::empty());
            while i < variables.len()
                invariant
                    i <= variables@.len(),
                    lines@ == export_lines(variables@.take(i as int)),
                decreases variables@.len() - i,
            {
                lines.append("export ");
                lines.append(variables[i].as_str());
                lines.append("\n");
                assert(variables@.take(i + 1).drop_last() =~= variables@.take(i as int));
                i += 1;
            }
            assert(variables@.take(i as int) =~= variables@);
            let mut part: String = "# Environment variables\n".to_owned();
            part.append(lines.as_str());
            part.append("\n");
            part
        },
        None => String::new(),
    }
}

fn directory(working_dir: &Option<String>) -> (part: String)
    ensures
        part@ == directory_part(*working_dir),
{
    match working_dir {
        Some(directory) => {
            let mut part: String = "cd ".to_owned();
            part.append(directory.as_str());
            part.append("\n\n");
            part
        },
        None => String::new(),
    }
}

fn user_note(user: &Option<String>) -> (part: String)
    ensures
        part@ == user_part(*user),
{
    match user {
        Some(user) => {
            let mut part: String = "# Run as user: ".to_owned();
            part.append(user.as_str());
            part.append("\n");
            part
        },
        None => String::new(),
    }
}

fn push_all(words: &mut Vec<String>, more: &Option<Vec<String>>)
    ensures
        final(words)@ == old(words)@ + listed(*more),
{
    match more {
        Some(strings) => {
            let ghost before = words@;
            let mut i: usize = 0;
            while i < strings.len()
                invariant
                    i <= strings@.len(),
                    words@ == before + strings@.take(i as int),
                decreases strings@.len() - i,
            {
                words.push(strings[i].clone());
                assert(strings@.take(i + 1) =~= strings@.take(i as int).push(strings@[i as int]));
                i += 1;
            }
            assert(strings@.take(i as int) =~= strings@);
        },
        None => {
            assert(words@ =~= words@ + listed(*more));
        },
    }
}

/// Returns the script that starts what the image is made to run: it sets the environment, goes
/// to the working directory, and replaces itself by the entrypoint with the command as its
/// arguments, or by a shell where the image names neither. The shell reads the command in the
/// script as the words that the image gives, where none of them is empty.
pub fn create_entrypoint_script(config: &ImageConfig) -> (script: String)
    ensures
        script@ == script_text(*config),
        forall|i: int|
            0 <= i < command_words(*config).len() ==> ascii_is_known(
                (#[trigger] command_words(*config)[i])@,
            ),
        (forall|i: int|
            0 <= i < command_words(*config).len() ==> (#[trigger] command_words(*config)[i])@.len()
                > 0) ==> shell_words(command_text(texts(command_words(*config)))) == Some(
            texts(command_words(*config)),
        ),
        (forall|i: int|
            0 <= i < words_in(config.entrypoint).len() ==> (#[trigger] words_in(
                config.entrypoint,
            )[i]).len() > 0) && (forall|i: int|
            0 <= i < words_in(config.cmd).len() ==> (#[trigger] words_in(config.cmd)[i]).len() > 0)
            ==> ends_by_starting(
            script@,
            if words_in(config.entrypoint).len() == 0 && words_in(config.cmd).len() == 0 {
                seq!["/bin/bash"@]
            } else {
                words_in(config.entrypoint) + words_in(config.cmd)
            },
        ),
{
    let mut script: String = "#!/bin/bash\n".to_owned();
    script.append("# Auto-generated entrypoint script\n\n");
    script.append(environment(&config.env).as_str());
    script.append(directory(&config.working_dir).as_str());
    script.append(user_note(&config.user).as_str());
    let mut words: Vec<String> = Vec::new();
    push_all(&mut words, &config.entrypoint);
    push_all(&mut words, &config.cmd);
    assert(words@ =~= command_words(*config));
    let mut part: String = String::new();
    if words.len() > 0 {
        let command: String = shell_command(&words);
        part.append("# Execute command\n");
        part.append("exec ");
        part.append(command.as_str());
        part.append("\n");
    } else {
        part.append("# No command specified\n");
        part.append("exec /bin/bash\n");
    }
    assert(part@ =~= command_part(words@));
    script.append(part.as_str());
    proof {
        let first = words_in(config.entrypoint);
        let second = words_in(config.cmd);
        if (forall|i: int| 0 <= i < first.len() ==> (#[trigger] first[i]).len() > 0) && (forall|
            i: int,
        |
            0 <= i < second.len() ==> (#[trigger] second[i]).len() > 0) {
            assert forall|i: int| 0 <= i < first.len() implies (#[trigger] first[i]).len() > 0
                && ascii_is_known(first[i]) by {
                assert(command_words(*config)[i]@ == first[i]);
            }
            assert forall|i: int| 0 <= i < second.len() implies (#[trigger] second[i]).len() > 0
                && ascii_is_known(second[i]) by {
                assert(command_words(*config)[first.len() + i]@ == second[i]);
            }
            law_script_starts_entrypoint_and_command(*config);
        }
    }
    script
}

/// The words of a list that may be missing: those of the list, or none.
pub open spec fn words_in(list: Option<Vec<String>>) -> Seq<Seq<char>> {
    match list {
        Some(strings) => Seq::new(strings@.len(), |i: int| strings@[i]@),
        None => Seq::empty(),
    }
}

/// Whether a script ends with a line that replaces it by a command: `exec`, at the beginning of a
/// line, before what the shell reads as just these words.
pub open spec fn ends_by_starting(script: Seq<char>, words: Seq<Seq<char>>) -> bool {
    exists|front: Seq<char>, command: Seq<char>|
        {
            &&& script == #[trigger] (front + "exec "@ + command + "\n"@)
            &&& front.len() > 0 && front.last() == '\n'
            &&& shell_words(command) == Some(words)
        }
}

/// A word that is not empty is read back by the shell, whether it is written plain or quoted.
proof fn lemma_word_reads_back(word: Seq<char>)
    requires
        word.len() > 0,
        ascii_is_known(word),
    ensures
        reads_back(word, is_plain(word)),
{
    if is_plain(word) {
        assert forall|i: int| 0 <= i < word.len() implies !has_meaning(#[trigger] word[i]) by {
            let c = word[i];
            assert(is_plain_char(c));
            if (c as u32) < 128 {
                assert(char_is_alphanumeric(word[i]) == is_ascii_letter_or_digit(word[i]));
            }
        }
    }
}

/// What a script starts: the words that the shell reads behind `exec` in its last line are those of
/// the entrypoint followed by those of the command, whichever of the two lists is missing, and a
/// shell exactly where both are missing or empty. Each word must have a character, as the empty
/// word is written as nothing.
pub proof fn law_script_starts_entrypoint_and_command(config: ImageConfig)
    requires
        forall|i: int|
            0 <= i < words_in(config.entrypoint).len() ==> (#[trigger] words_in(
                config.entrypoint,
            )[i]).len() > 0 && ascii_is_known(words_in(config.entrypoint)[i]),
        forall|i: int|
            0 <= i < words_in(config.cmd).len() ==> (#[trigger] words_in(config.cmd)[i]).len() > 0
                && ascii_is_known(words_in(config.cmd)[i]),
    ensures
        ends_by_starting(
            script_text(config),
            if words_in(config.entrypoint).len() == 0 && words_in(config.cmd).len() == 0 {
                seq!["/bin/bash"@]
            } else {
                words_in(config.entrypoint) + words_in(config.cmd)
            },
        ),
{
    let words = words_in(config.entrypoint) + words_in(config.cmd);
    let head = "#!/bin/bash\n"@ + "# Auto-generated entrypoint script\n\n"@ + environment_part(
        config.env,
    ) + directory_part(config.working_dir) + user_part(config.user);
    let script = script_text(config);
    assert(texts(command_words(config)) =~= words);
    if words.len() == 0 {
        let front = head + "# No command specified\n"@;
        let command = "/bin/bash"@;
        reveal_strlit("exec /bin/bash\n");
        reveal_strlit("exec ");
        reveal_strlit("/bin/bash");
        reveal_strlit("\n");
        reveal_strlit("# No command specified\n");
        assert("exec /bin/bash\n"@ =~= "exec "@ + command + "\n"@);
        assert(script =~= front + "exec "@ + command + "\n"@);
        law_escaping_is_undone(command, true);
    } else {
        let front = head + "# Execute command\n"@;
        let command = command_text(words);
        reveal_strlit("# Execute command\n");
        assert(script =~= front + "exec "@ + command + "\n"@);
        assert forall|i: int| 0 <= i < words.len() implies #[trigger] reads_back(
            words[i],
            is_plain(words[i]),
        ) by {
            let n = words_in(config.entrypoint).len();
            if i < n {
                assert(words[i] == words_in(config.entrypoint)[i]);
            } else {
                assert(words[i] == words_in(config.cmd)[i - n]);
            }
            lemma_word_reads_back(words[i]);
        }
        law_command_is_read_back(words);
    }
}

/// A command that is named takes the place of the shell, and changes nothing before it: up to the
/// last two lines the script is that of the same image without entrypoint and command.
pub proof fn law_command_takes_the_place_of_the_shell(config: ImageConfig) -> (front: Seq<char>)
    ensures
        script_text(ImageConfig { entrypoint: None, cmd: None, ..config }) == front
            + "# No command specified\n"@ + "exec /bin/bash\n"@,
        words_in(config.entrypoint).len() + words_in(config.cmd).len() == 0 ==> script_text(config)
            == front + "# No command specified\n"@ + "exec /bin/bash\n"@,
        words_in(config.entrypoint).len() + words_in(config.cmd).len() > 0 ==> script_text(config)
            == front + "# Execute command\n"@ + "exec "@ + command_text(
            words_in(config.entrypoint) + words_in(config.cmd),
        ) + "\n"@,
{
    let front = "#!/bin/bash\n"@ + "# Auto-generated entrypoint script\n\n"@ + environment_part(
        config.env,
    ) + directory_part(config.working_dir) + user_part(config.user);
    let bare = ImageConfig { entrypoint: None, cmd: None, ..config };
    assert(texts(command_words(config)) =~= words_in(config.entrypoint) + words_in(config.cmd));
    assert(script_text(bare) =~= front + "# No command specified\n"@ + "exec /bin/bash\n"@);
    if command_words(config).len() > 0 {
        assert(script_text(config) =~= front + "# Execute command\n"@ + "exec "@ + command_text(
            words_in(config.entrypoint) + words_in(config.cmd),
        ) + "\n"@);
    } else {
        assert(script_text(config) =~= front + "# No command specified\n"@ + "exec /bin/bash\n"@);
    }
    front
}

/// The environment is a section of its own behind the two lines that every script begins with: a
/// comment, a line for each variable, and an empty line. The rest of the script is that of the same
/// image without an environment.
pub proof fn law_environment_is_a_section(config: ImageConfig) -> (rest: Seq<char>)
    ensures
        script_text(ImageConfig { env: None, ..config }) == "#!/bin/bash\n"@
            + "# Auto-generated entrypoint script\n\n"@ + rest,
        config.env is None ==> script_text(config) == "#!/bin/bash\n"@
            + "# Auto-generated entrypoint script\n\n"@ + rest,
        config.env matches Some(variables) ==> script_text(config) == "#!/bin/bash\n"@
            + "# Auto-generated entrypoint script\n\n"@ + "# Environment variables\n"@
            + export_lines(variables@) + "\n"@ + rest,
{
    let head = "#!/bin/bash\n"@ + "# Auto-generated entrypoint script\n\n"@;
    let bare = ImageConfig { env: None, ..config };
    let rest = directory_part(config.working_dir) + user_part(config.user) + command_part(
        command_words(config),
    );
    assert(command_words(bare) == command_words(config));
    assert(script_text(bare) =~= head + rest);
    match config.env {
        Some(variables) => {
            assert(script_text(config) =~= head + "# Environment variables\n"@ + export_lines(
                variables@,
            ) + "\n"@ + rest);
        },
        None => {
            assert(script_text(config) =~= head + rest);
        },
    }
    rest
}

/// Each variable has its line, in the order of the list.
pub proof fn law_each_variable_is_exported(variables: Seq<String>, more: String)
    ensures
        export_lines(Seq::empty()) == Seq::<char>::empty(),
        export_lines(variables.push(more)) == export_lines(variables) + "export "@ + more@ + "\n"@,
{
    assert(variables.push(more).drop_last() =~= variables);
}

/// The working directory is gone to, and the user is noted, just where the image names them: a line
/// and an empty line, and then a comment, without which the script is that of the same image
/// without them.
pub proof fn law_directory_and_user_are_lines(config: ImageConfig) -> (r: (Seq<char>, Seq<char>))
    ensures
        script_text(ImageConfig { working_dir: None, user: None, ..config }) == r.0 + r.1,
        config.working_dir is None && config.user is None ==> script_text(config) == r.0 + r.1,
        config.working_dir is Some && config.user is None ==> script_text(config) == r.0 + "cd "@
            + config.working_dir->0@ + "\n\n"@ + r.1,
        config.working_dir is None && config.user is Some ==> script_text(config) == r.0
            + "# Run as user: "@ + config.user->0@ + "\n"@ + r.1,
        config.working_dir is Some && config.user is Some ==> script_text(config) == r.0 + "cd "@
            + config.working_dir->0@ + "\n\n"@ + "# Run as user: "@ + config.user->0@ + "\n"@ + r.1,
        r.1 == script_end(config),
{
    let front = "#!/bin/bash\n"@ + "# Auto-generated entrypoint script\n\n"@ + environment_part(
        config.env,
    );
    let end = script_end(config);
    let bare = ImageConfig { working_dir: None, user: None, ..config };
    assert(texts(command_words(config)) =~= words_in(config.entrypoint) + words_in(config.cmd));
    assert(command_words(bare) == command_words(config));
    assert(command_part(command_words(config)) =~= end);
    assert(script_text(bare) =~= front + end);
    match (config.working_dir, config.user) {
        (Some(directory), Some(user)) => {
            assert(script_text(config) =~= front + "cd "@ + directory@ + "\n\n"@
                + "# Run as user: "@ + user@ + "\n"@ + end);
        },
        (Some(directory), None) => {
            assert(script_text(config) =~= front + "cd "@ + directory@ + "\n\n"@ + end);
        },
        (None, Some(user)) => {
            assert(script_text(config) =~= front + "# Run as user: "@ + user@ + "\n"@ + end);
        },
        (None, None) => {
            assert(script_text(config) =~= front + end);
        },
    }
    (front, end)
}

/// The last two lines of a script: a comment, and the line that starts the command or a shell.
pub open spec fn script_end(config: ImageConfig) -> Seq<char> {
    if words_in(config.entrypoint).len() + words_in(config.cmd).len() == 0 {
        "# No command specified\n"@ + "exec /bin/bash\n"@
    } else {
        "# Execute command\n"@ + "exec "@ + command_text(
            words_in(config.entrypoint) + words_in(config.cmd),
        ) + "\n"@
    }
}

/// A word is written as it is exactly if it has only letters, digits and the characters `-_./`.
/// Any other word stands between single quotes.
pub proof fn law_only_plain_words_are_bare(word: Seq<char>)
    requires
        ascii_is_known(word),
    ensures
        is_plain(word) <==> forall|i: int|
            0 <= i < word.len() ==> {
                let c = #[trigger] word[i];
                ||| 'a' <= c <= 'z' || 'A' <= c <= 'Z' || '0' <= c <= '9'
                ||| c == '-' || c == '_' || c == '.' || c == '/'
                ||| c as u32 >= 128 && char_is_alphanumeric(c)
            },
        is_plain(word) ==> escaped(word, is_plain(word)) == word,
        !is_plain(word) ==> escaped(word, is_plain(word)).len() >= 2 && escaped(
            word,
            is_plain(word),
        )[0] == '\'' && escaped(word, is_plain(word)).last() == '\'',
{
    assert forall|i: int| 0 <= i < word.len() implies (is_plain_char(#[trigger] word[i]) <==> {
        let c = word[i];
        ||| 'a' <= c <= 'z' || 'A' <= c <= 'Z' || '0' <= c <= '9'
        ||| c == '-' || c == '_' || c == '.' || c == '/'
        ||| c as u32 >= 128 && char_is_alphanumeric(c)
    }) by {
        if (word[i] as u32) < 128 {
            assert(char_is_alphanumeric(word[i]) == is_ascii_letter_or_digit(word[i]));
        }
    }
}

/// Between single quotes every character stands as it is, but for a single quote, which is written
/// as a single quote in double quotes with the single quotes closed before it and opened behind it.
/// Parts of a word are quoted one after the other.
pub proof fn law_single_quotes_are_replaced(a: Seq<char>, b: Seq<char>, c: char)
    ensures
        quoted(a + b) == quoted(a) + quoted(b),
        c != '\'' ==> quoted(seq![c]) == seq![c],
        quoted(seq!['\'']) == seq!['\'', '"', '\'', '"', '\''],
        quoted(Seq::empty()) == Seq::<char>::empty(),
    decreases b.len(),
{
    assert(seq![c].drop_last() =~= Seq::empty());
    assert(quoted(seq![c].drop_last()) == Seq::<char>::empty());
    assert(seq!['\''].drop_last() =~= Seq::<char>::empty());
    assert(quoted(seq!['\''].drop_last()) == Seq::<char>::empty());
    assert(c != '\'' ==> quoted(seq![c]) =~= seq![c]);
    assert(quoted(seq!['\'']) =~= seq!['\'', '"', '\'', '"', '\'']);
    if b.len() == 0 {
        assert(a + b =~= a);
        assert(quoted(a) + quoted(b) =~= quoted(a));
    } else {
        assert((a + b).drop_last() =~= a + b.drop_last());
        law_single_quotes_are_replaced(a, b.drop_last(), c);
        assert(quoted(a + b) =~= quoted(a) + quoted(b));
    }
}

/// A command line grows by one word at a time, with one space before each word but the first.
pub proof fn law_words_stand_one_space_apart(words: Seq<Seq<char>>, word: Seq<char>)
    ensures
        command_text(Seq::empty()) == Seq::<char>::empty(),
        command_text(seq![word]) == escaped(word, is_plain(word)),
        words.len() > 0 ==> command_text(words.push(word)) == command_text(words).push(' ')
            + escaped(word, is_plain(word)),
{
    reveal_strlit(" ");
    assert(words.push(word).drop_last() =~= words);
    assert(command_text(words) + " "@ =~= command_text(words).push(' '));
}

} // verus!
