//! Command lines for the remote shell.
use vstd::prelude::*;

use crate::text::{chars_of, trim, trimmed};

verus! {

/// Prints the absolute path of the directory named by the first argument.
pub open spec fn resolve_remote_dir_text() -> Seq<char> {
    "\npath=$1\nif [ -z \"$path\" ]; then\n  path=$HOME\nfi\ncase \"$path\" in\n  \"~\")\n    path=$HOME\n    ;;\n  \"~/\"*)\n    path=$HOME/${path#~/}\n    ;;\nesac\ncd -- \"$path\" 2>/dev/null || exit 1\npwd -P\n"@
}

pub fn resolve_remote_dir_script() -> (script: &'static str)
    ensures
        script@ == "\npath=$1\nif [ -z \"$path\" ]; then\n  path=$HOME\nfi\ncase \"$path\" in\n  \"~\")\n    path=$HOME\n    ;;\n  \"~/\"*)\n    path=$HOME/${path#~/}\n    ;;\nesac\ncd -- \"$path\" 2>/dev/null || exit 1\npwd -P\n"@,
        script@ == resolve_remote_dir_text(),
{
    "\npath=$1\nif [ -z \"$path\" ]; then\n  path=$HOME\nfi\ncase \"$path\" in\n  \"~\")\n    path=$HOME\n    ;;\n  \"~/\"*)\n    path=$HOME/${path#~/}\n    ;;\nesac\ncd -- \"$path\" 2>/dev/null || exit 1\npwd -P\n"
}

/// Prints the directory named by the first argument and the directories in it,
/// each line marked.
pub open spec fn list_remote_dirs_text() -> Seq<char> {
    "\npath=$1\nif [ -z \"$path\" ]; then\n  path=$HOME\nfi\ncase \"$path\" in\n  \"~\")\n    path=$HOME\n    ;;\n  \"~/\"*)\n    path=$HOME/${path#~/}\n    ;;\nesac\ncd -- \"$path\" 2>/dev/null || exit 1\nprintf '__PWD__%s\\n' \"$PWD\"\nif [ \"$PWD\" != \"/\" ]; then\n  printf '__DIR__..\\n'\nfi\nfor entry in * .[!.]* ..?*; do\n  [ -d \"$entry\" ] || continue\n  printf '__DIR__%s\\n' \"$entry\"\ndone\n"@
}

pub fn list_remote_dirs_script() -> (script: &'static str)
    ensures
        script@ == "\npath=$1\nif [ -z \"$path\" ]; then\n  path=$HOME\nfi\ncase \"$path\" in\n  \"~\")\n    path=$HOME\n    ;;\n  \"~/\"*)\n    path=$HOME/${path#~/}\n    ;;\nesac\ncd -- \"$path\" 2>/dev/null || exit 1\nprintf '__PWD__%s\\n' \"$PWD\"\nif [ \"$PWD\" != \"/\" ]; then\n  printf '__DIR__..\\n'\nfi\nfor entry in * .[!.]* ..?*; do\n  [ -d \"$entry\" ] || continue\n  printf '__DIR__%s\\n' \"$entry\"\ndone\n"@,
        script@ == list_remote_dirs_text(),
{
    "\npath=$1\nif [ -z \"$path\" ]; then\n  path=$HOME\nfi\ncase \"$path\" in\n  \"~\")\n    path=$HOME\n    ;;\n  \"~/\"*)\n    path=$HOME/${path#~/}\n    ;;\nesac\ncd -- \"$path\" 2>/dev/null || exit 1\nprintf '__PWD__%s\\n' \"$PWD\"\nif [ \"$PWD\" != \"/\" ]; then\n  printf '__DIR__..\\n'\nfi\nfor entry in * .[!.]* ..?*; do\n  [ -d \"$entry\" ] || continue\n  printf '__DIR__%s\\n' \"$entry\"\ndone\n"
}

/// Writes standard input to the file named by the second argument in the
/// directory named by the first, through a temporary file.
pub open spec fn write_remote_file_text() -> Seq<char> {
    "\nset -eu\ndir=$1\nname=$2\ncd -- \"$dir\" 2>/dev/null || exit 1\ntmp_path=\".horizon-upload-${name}.$$\"\ncleanup() {\n  rm -f -- \"$tmp_path\"\n}\ntrap cleanup EXIT HUP INT TERM\ncat > \"$tmp_path\"\nmv -f -- \"$tmp_path\" \"$name\"\ntrap - EXIT HUP INT TERM\n"@
}

pub fn write_remote_file_script() -> (script: &'static str)
    ensures
        script@ == "\nset -eu\ndir=$1\nname=$2\ncd -- \"$dir\" 2>/dev/null || exit 1\ntmp_path=\".horizon-upload-${name}.$$\"\ncleanup() {\n  rm -f -- \"$tmp_path\"\n}\ntrap cleanup EXIT HUP INT TERM\ncat > \"$tmp_path\"\nmv -f -- \"$tmp_path\" \"$name\"\ntrap - EXIT HUP INT TERM\n"@,
        script@ == write_remote_file_text(),
{
    "\nset -eu\ndir=$1\nname=$2\ncd -- \"$dir\" 2>/dev/null || exit 1\ntmp_path=\".horizon-upload-${name}.$$\"\ncleanup() {\n  rm -f -- \"$tmp_path\"\n}\ntrap cleanup EXIT HUP INT TERM\ncat > \"$tmp_path\"\nmv -f -- \"$tmp_path\" \"$name\"\ntrap - EXIT HUP INT TERM\n"
}

/// `s` with every single quote closed, quoted by itself and opened again.
pub open spec fn requoted(s: Seq<char>) -> Seq<char>
    decreases s.len(),
{
    if s.len() == 0 {
        Seq::empty()
    } else if s.last() == '\'' {
        requoted(s.drop_last()) + seq!['\'', '"', '\'', '"', '\'']
    } else {
        requoted(s.drop_last()).push(s.last())
    }
}

/// `s` as one single-quoted shell word.
pub open spec fn quoted(s: Seq<char>) -> Seq<char> {
    seq!['\''] + requoted(s) + seq!['\'']
}

/// `quoted` words, each after a space.
pub open spec fn quoted_words(args: Seq<Seq<char>>) -> Seq<char>
    decreases args.len(),
{
    if args.len() == 0 {
        Seq::empty()
    } else {
        quoted_words(args.drop_last()).push(' ') + quoted(args.last())
    }
}

/// The command that has the remote `sh` run `script` with `args`.
pub open spec fn shell_command(script: Seq<char>, args: Seq<Seq<char>>) -> Seq<char> {
    seq!['s', 'h', ' ', '-', 'c', ' '] + quoted(trim(script)) + seq![' ', '-', '-']
        + quoted_words(args)
}

pub fn shell_escape(value: &str) -> (word: String)
    ensures
        word@ == quoted(value@),
{
    let chars = chars_of(value);
    let mut word = String::new();
    word.push('\'');
    let mut i: usize = 0;
    while i < chars.len()
        invariant
            chars@ == value@,
            i <= chars@.len(),
            word@ == seq!['\''] + requoted(value@.take(i as int)),
        decreases chars@.len() - i,
    {
        let ghost next = value@.take(i + 1);
        assert(next.drop_last() =~= value@.take(i as int));
        if chars[i] == '\'' {
            word.push('\'');
            word.push('"');
            word.push('\'');
            word.push('"');
            word.push('\'');
        } else {
            word.push(chars[i]);
        }
        assert(word@ =~= seq!['\''] + requoted(next));
        i = i + 1;
    }
    assert(value@.take(i as int) =~= value@);
    word.push('\'');
    assert(word@ =~= quoted(value@));
    word
}

/// What every `&str` of a list reads as.
pub open spec fn str_texts(list: Seq<&str>) -> Seq<Seq<char>> {
    list.map_values(|s: &str| s@)
}

pub fn build_remote_shell_command(script: &str, args: &[&str]) -> (command: String)
    ensures
        command@ == shell_command(script@, str_texts(args@)),
{
    let mut command = String::new();
    command.push('s');
    command.push('h');
    command.push(' ');
    command.push('-');
    command.push('c');
    command.push(' ');
    command.append(shell_escape(trimmed(script).as_str()).as_str());
    command.push(' ');
    command.push('-');
    command.push('-');
    let ghost head = command@;
    assert(head =~= shell_command(script@, Seq::empty()));
    let mut i: usize = 0;
    while i < args.len()
        invariant
            i <= args@.len(),
            command@ == head + quoted_words(str_texts(args@).take(i as int)),
        decreases args@.len() - i,
    {
        let ghost next = str_texts(args@).take(i + 1);
        assert(next.drop_last() =~= str_texts(args@).take(i as int));
        command.push(' ');
        command.append(shell_escape(args[i]).as_str());
        assert(command@ =~= head + quoted_words(next));
        i = i + 1;
    }
    assert(str_texts(args@).take(i as int) =~= str_texts(args@));
    assert(command@ =~= shell_command(script@, str_texts(args@)));
    command
}

pub fn build_remote_upload_command(destination_dir: &str, file_name: &str) -> (command: String)
    ensures
        command@ == shell_command(
            "\nset -eu\ndir=$1\nname=$2\ncd -- \"$dir\" 2>/dev/null || exit 1\ntmp_path=\".horizon-upload-${name}.$$\"\ncleanup() {\n  rm -f -- \"$tmp_path\"\n}\ntrap cleanup EXIT HUP INT TERM\ncat > \"$tmp_path\"\nmv -f -- \"$tmp_path\" \"$name\"\ntrap - EXIT HUP INT TERM\n"@,
            seq![destination_dir@, file_name@],
        ),
        command@ == shell_command(write_remote_file_text(), seq![destination_dir@, file_name@]),
{
    let args: [&str; 2] = [destination_dir, file_name];
    let command = build_remote_shell_command(write_remote_file_script(), args.as_slice());
    assert(str_texts(args@) =~= seq![destination_dir@, file_name@]);
    command
}

/// Where a POSIX shell stands while it splits a line into words.
pub enum Quote {
    Bare,
    Single,
    Double,
}

/// A shell that has read part of a line: the words behind it, the one it is in,
/// and whether everything so far was plain text to it.
pub struct Splitting {
    pub words: Seq<Seq<char>>,
    pub word: Option<Seq<char>>,
    pub quote: Quote,
    pub plain: bool,
}

impl Splitting {
    pub open spec fn start() -> Splitting {
        Splitting { words: Seq::empty(), word: None, quote: Quote::Bare, plain: true }
    }

    pub open spec fn so_far(self) -> Seq<char> {
        match self.word {
            Some(w) => w,
            None => Seq::empty(),
        }
    }

    /// One more scalar. Outside quotes only letters, digits and hyphens are
    /// taken for themselves, inside double quotes everything but what expands.
    pub open spec fn step(self, c: char) -> Splitting {
        match self.quote {
            Quote::Single => if c == '\'' {
                Splitting { quote: Quote::Bare, ..self }
            } else {
                Splitting { word: Some(self.so_far().push(c)), ..self }
            },
            Quote::Double => if c == '"' {
                Splitting { quote: Quote::Bare, ..self }
            } else {
                Splitting {
                    word: Some(self.so_far().push(c)),
                    plain: self.plain && c != '$' && c != '`' && c != '\\',
                    ..self
                }
            },
            Quote::Bare => if c == ' ' {
                match self.word {
                    Some(w) => Splitting { words: self.words.push(w), word: None, ..self },
                    None => self,
                }
            } else if c == '\'' {
                Splitting { word: Some(self.so_far()), quote: Quote::Single, ..self }
            } else if c == '"' {
                Splitting { word: Some(self.so_far()), quote: Quote::Double, ..self }
            } else {
                Splitting {
                    word: Some(self.so_far().push(c)),
                    plain: self.plain && (c == '-' || ('a' <= c && c <= 'z') || ('A' <= c && c
                        <= 'Z') || ('0' <= c && c <= '9')),
                    ..self
                }
            },
        }
    }

    pub open spec fn read(self, s: Seq<char>) -> Splitting
        decreases s.len(),
    {
        if s.len() == 0 {
            self
        } else {
            self.read(s.drop_last()).step(s.last())
        }
    }
}

/// The words that a POSIX shell makes of `line`; `None` where quotes stay open
/// or something would expand.
pub open spec fn shell_words(line: Seq<char>) -> Option<Seq<Seq<char>>> {
    let end = Splitting::start().read(line);
    if !end.plain || end.quote != Quote::Bare {
        None
    } else {
        match end.word {
            Some(w) => Some(end.words.push(w)),
            None => Some(end.words),
        }
    }
}

proof fn lemma_read_append(from: Splitting, a: Seq<char>, b: Seq<char>)
    ensures
        from.read(a + b) == from.read(a).read(b),
    decreases b.len(),
{
    if b.len() == 0 {
        assert(a + b =~= a);
    } else {
        assert((a + b).drop_last() =~= a + b.drop_last());
        lemma_read_append(from, a, b.drop_last());
    }
}

proof fn lemma_read_requoted(from: Splitting, s: Seq<char>)
    requires
        from.quote == Quote::Single,
        from.word is Some,
    ensures
        from.read(requoted(s)) == (Splitting { word: Some(from.so_far() + s), ..from }),
    decreases s.len(),
{
    if s.len() == 0 {
        assert(from.so_far() + s =~= from.so_far());
    } else {
        let head = s.drop_last();
        lemma_read_requoted(from, head);
        let mid = from.read(requoted(head));
        assert(from.so_far() + s =~= (from.so_far() + head).push(s.last()));
        if s.last() == '\'' {
            let tail = seq!['\'', '"', '\'', '"', '\''];
            lemma_read_append(from, requoted(head), tail);
            assert(tail.drop_last().drop_last().drop_last().drop_last().drop_last().len() == 0);
            reveal_with_fuel(Splitting::read, 6);
        } else {
            let whole = requoted(head).push(s.last());
            assert(whole.drop_last() =~= requoted(head));
        }
    }
}

proof fn lemma_read_quoted(from: Splitting, s: Seq<char>)
    requires
        from.quote == Quote::Bare,
    ensures
        from.read(quoted(s)) == (Splitting { word: Some(from.so_far() + s), ..from }),
{
    let open = seq!['\''];
    let opened = Splitting { word: Some(from.so_far()), quote: Quote::Single, ..from };
    assert(from.read(open) == opened) by {
        assert(open.drop_last() =~= Seq::<char>::empty());
        reveal_with_fuel(Splitting::read, 2);
    }
    lemma_read_append(from, open, requoted(s));
    lemma_read_requoted(opened, s);
    let body = open + requoted(s);
    assert((body + open).drop_last() =~= body);
    assert(quoted(s) == body + open);
}

proof fn lemma_read_quoted_words(from: Splitting, args: Seq<Seq<char>>)
    requires
        from.quote == Quote::Bare,
        from.word is Some,
    ensures
        ({
            let end = from.read(quoted_words(args));
            &&& end.quote == Quote::Bare
            &&& end.plain == from.plain
            &&& end.word is Some
            &&& end.words.push(end.word->0) == from.words.push(from.word->0) + args
        }),
    decreases args.len(),
{
    if args.len() == 0 {
        assert(from.words.push(from.word->0) + args =~= from.words.push(from.word->0));
    } else {
        let head = args.drop_last();
        lemma_read_quoted_words(from, head);
        let mid = from.read(quoted_words(head));
        let spaced = quoted_words(head).push(' ');
        assert(spaced.drop_last() =~= quoted_words(head));
        let at_gap = from.read(spaced);
        assert(at_gap == mid.step(' '));
        lemma_read_append(from, spaced, quoted(args.last()));
        lemma_read_quoted(at_gap, args.last());
        let end = from.read(quoted_words(args));
        assert(end.word->0 =~= args.last());
        assert(end.words.push(end.word->0) =~= from.words.push(from.word->0) + args);
    }
}

/// Whatever the script and the arguments hold, the remote shell gets `sh`,
/// `-c`, the trimmed script, `--` and each argument as a word of its own, with
/// nothing in them expanded or split.
pub proof fn law_remote_shell_gets_each_argument_whole(script: Seq<char>, args: Seq<Seq<char>>)
    ensures
        shell_words(shell_command(script, args)) == Some(
            seq![seq!['s', 'h'], seq!['-', 'c'], trim(script), seq!['-', '-']] + args,
        ),
{
    let start = Splitting::start();
    let intro = seq!['s', 'h', ' ', '-', 'c', ' '];
    let s1 = start.read(intro);
    assert(s1.words =~= seq![seq!['s', 'h'], seq!['-', 'c']] && s1.word is None && s1.plain
        && s1.quote == Quote::Bare) by {
        lemma_steps_six(start, intro);
        let w1 = Seq::<char>::empty().push('s').push('h');
        let w2 = Seq::<char>::empty().push('-').push('c');
        assert(w1 =~= seq!['s', 'h']);
        assert(w2 =~= seq!['-', 'c']);
    }
    let body = quoted(trim(script));
    lemma_read_append(start, intro, body);
    lemma_read_quoted(s1, trim(script));
    let s2 = start.read(intro + body);
    assert(s2.word->0 =~= trim(script));
    let dashes = seq![' ', '-', '-'];
    lemma_read_append(start, intro + body, dashes);
    let s3 = start.read(intro + body + dashes);
    assert(s3.words =~= s2.words.push(trim(script)) && s3.word == Some(seq!['-', '-']) && s3.plain
        && s3.quote == Quote::Bare) by {
        lemma_steps_three(s2, dashes);
        assert(Seq::<char>::empty().push('-').push('-') =~= seq!['-', '-']);
    }
    lemma_read_append(start, intro + body + dashes, quoted_words(args));
    lemma_read_quoted_words(s3, args);
    let end = start.read(shell_command(script, args));
    assert(end.words.push(end.word->0) =~= seq![
        seq!['s', 'h'],
        seq!['-', 'c'],
        trim(script),
        seq!['-', '-'],
    ] + args);
}

proof fn lemma_steps_three(from: Splitting, s: Seq<char>)
    requires
        s.len() == 3,
    ensures
        from.read(s) == from.step(s[0]).step(s[1]).step(s[2]),
{
    reveal_with_fuel(Splitting::read, 4);
    assert(s.drop_last().drop_last().drop_last().len() == 0);
}

proof fn lemma_steps_six(from: Splitting, s: Seq<char>)
    requires
        s.len() == 6,
    ensures
        from.read(s) == from.step(s[0]).step(s[1]).step(s[2]).step(s[3]).step(s[4]).step(s[5]),
{
    let a = s.take(3);
    let b = s.skip(3);
    assert(a + b =~= s);
    lemma_read_append(from, a, b);
    lemma_steps_three(from, a);
    lemma_steps_three(from.read(a), b);
}

/// Different arguments never make the same command.
pub proof fn law_remote_shell_commands_tell_arguments_apart(
    script: Seq<char>,
    one: Seq<Seq<char>>,
    other: Seq<Seq<char>>,
)
    requires
        shell_command(script, one) == shell_command(script, other),
    ensures
        one == other,
{
    law_remote_shell_gets_each_argument_whole(script, one);
    law_remote_shell_gets_each_argument_whole(script, other);
    let head = seq![seq!['s', 'h'], seq!['-', 'c'], trim(script), seq!['-', '-']];
    assert((head + one).skip(4) =~= one);
    assert((head + other).skip(4) =~= other);
}

} // verus!
