//! What the remote shell does with the scripts that resolve and list a
//! directory.
use vstd::prelude::*;

use super::script::Progress;
use super::shell::{
    law_remote_shell_gets_each_argument_whole, list_remote_dirs_text, resolve_remote_dir_text,
    shell_command, shell_words,
};
use crate::text::{law_lines_end_at_line_feeds, lemma_trim_end, lemma_trim_start, lines, starts_with, trim};

verus! {

/// What becomes of the lines that follow.
pub enum Mode {
    Go,
    /// The condition did not hold: nothing happens until its end.
    SkipIf,
    /// No arm of the choice has matched so far.
    SkipArm,
    /// An arm has run: nothing happens until the choice ends.
    SkipCase,
    /// The lines are done for every entry, or for those that are directories.
    Loop { only_dirs: bool },
}

/// The names in a directory in the order in which the shell goes through them,
/// each with whether it is a directory.
pub type Entries = Seq<(Seq<char>, bool)>;

/// The host while a script looks at its directories.
pub struct Browser {
    /// What `$PWD` and `pwd -P` say of a directory, by the paths that lead there.
    pub places: Map<Seq<char>, (Seq<char>, Seq<char>)>,
    /// What is in a directory, by its `$PWD`.
    pub entries: Map<Seq<char>, Entries>,
    pub home: Seq<char>,
    /// What the shell makes of `${path#~/}`: shells differ in whether the tilde
    /// of the pattern stands for itself.
    pub stripped: Seq<char>,
    pub path: Seq<char>,
    pub here: (Seq<char>, Seq<char>),
    pub printed: Seq<Seq<char>>,
    pub mode: Mode,
    pub progress: Progress,
}

/// The names that are printed, each behind its mark.
pub open spec fn marked(entries: Entries, only_dirs: bool) -> Seq<Seq<char>>
    decreases entries.len(),
{
    if entries.len() == 0 {
        Seq::empty()
    } else if only_dirs && !entries.last().1 {
        marked(entries.drop_last(), only_dirs)
    } else {
        marked(entries.drop_last(), only_dirs).push("__DIR__"@ + entries.last().0)
    }
}

impl Browser {
    pub open spec fn fresh(
        places: Map<Seq<char>, (Seq<char>, Seq<char>)>,
        entries: Map<Seq<char>, Entries>,
        home: Seq<char>,
        stripped: Seq<char>,
    ) -> Browser {
        Browser {
            places,
            entries,
            home,
            stripped,
            path: Seq::empty(),
            here: (Seq::empty(), Seq::empty()),
            printed: Seq::empty(),
            mode: Mode::Go,
            progress: Progress::Running,
        }
    }

    /// A line that is not done: only the ends of conditions and choices count,
    /// and the arms of a choice.
    pub open spec fn skipped(self, line: Seq<char>) -> Browser {
        if line == "fi"@ && self.mode is SkipIf {
            Browser { mode: Mode::Go, ..self }
        } else if line == "esac"@ && (self.mode is SkipArm || self.mode is SkipCase) {
            Browser { mode: Mode::Go, ..self }
        } else if line == "  \"~\")"@ && self.mode is SkipArm && self.path == "~"@ {
            Browser { mode: Mode::Go, ..self }
        } else if line == "  \"~/\"*)"@ && self.mode is SkipArm && starts_with(
            self.path,
            "~/"@,
        ) {
            Browser { mode: Mode::Go, ..self }
        } else {
            self
        }
    }

    /// A line of the loop over the entries.
    pub open spec fn looped(self, line: Seq<char>, only_dirs: bool) -> Browser {
        if line == "  [ -d \"$entry\" ] || continue"@ {
            Browser { mode: Mode::Loop { only_dirs: true }, ..self }
        } else if line == "  printf '__DIR__%s\\n' \"$entry\""@ {
            Browser {
                printed: self.printed + marked(self.entries[self.here.0], only_dirs),
                ..self
            }
        } else if line == "done"@ {
            Browser { mode: Mode::Go, ..self }
        } else {
            Browser { progress: Progress::Unknown, ..self }
        }
    }

    /// A line that is done.
    pub open spec fn done(self, line: Seq<char>, args: Seq<Seq<char>>) -> Browser {
        if line == "path=$1"@ {
            Browser { path: args[0], ..self }
        } else if line == "if [ -z \"$path\" ]; then"@ {
            Browser {
                mode: if self.path.len() == 0 {
                    Mode::Go
                } else {
                    Mode::SkipIf
                },
                ..self
            }
        } else if line == "  path=$HOME"@ || line == "    path=$HOME"@ {
            Browser { path: self.home, ..self }
        } else if line == "fi"@ || line == "esac"@ {
            self
        } else if line == "case \"$path\" in"@ {
            Browser { mode: Mode::SkipArm, ..self }
        } else if line == "    ;;"@ {
            Browser { mode: Mode::SkipCase, ..self }
        } else if line == "    path=$HOME/${path#~/}"@ {
            Browser { path: self.home + seq!['/'] + self.stripped, ..self }
        } else if line == "cd -- \"$path\" 2>/dev/null || exit 1"@ {
            if self.places.dom().contains(self.path) {
                Browser { here: self.places[self.path], ..self }
            } else {
                Browser { progress: Progress::Failed, ..self }
            }
        } else if line == "pwd -P"@ {
            Browser { printed: self.printed.push(self.here.1), ..self }
        } else if line == "printf '__PWD__%s\\n' \"$PWD\""@ {
            Browser { printed: self.printed.push("__PWD__"@ + self.here.0), ..self }
        } else if line == "if [ \"$PWD\" != \"/\" ]; then"@ {
            Browser {
                mode: if self.here.0 != "/"@ {
                    Mode::Go
                } else {
                    Mode::SkipIf
                },
                ..self
            }
        } else if line == "  printf '__DIR__..\\n'"@ {
            Browser { printed: self.printed.push("__DIR__.."@), ..self }
        } else if line == "for entry in * .[!.]* ..?*; do"@ {
            Browser { mode: Mode::Loop { only_dirs: false }, ..self }
        } else {
            Browser { progress: Progress::Unknown, ..self }
        }
    }

    pub open spec fn line(self, line: Seq<char>, args: Seq<Seq<char>>) -> Browser {
        if !(self.progress is Running) {
            self
        } else {
            match self.mode {
                Mode::Go => self.done(line, args),
                Mode::Loop { only_dirs } => self.looped(line, only_dirs),
                _ => self.skipped(line),
            }
        }
    }

    /// The lines of a script, one after the other.
    pub open spec fn run(self, script: Seq<Seq<char>>, args: Seq<Seq<char>>) -> Browser
        decreases script.len(),
    {
        if script.len() == 0 {
            self
        } else {
            self.line(script[0], args).run(script.drop_first(), args)
        }
    }

    /// A command line: `sh -c`, a script, its name and its arguments.
    pub open spec fn command(self, line: Seq<char>) -> Browser {
        match shell_words(line) {
            Some(words) => if words.len() >= 4 && words[0] == seq!['s', 'h'] && words[1] == seq![
                '-',
                'c',
            ] {
                self.run(lines(words[2]), words.skip(4))
            } else {
                Browser { progress: Progress::Unknown, ..self }
            },
            None => Browser { progress: Progress::Unknown, ..self },
        }
    }
}

/// The directory that a path asks for: the home directory for none and for a
/// tilde, one in it behind a tilde and a slash, else the path itself.
pub open spec fn asked_for(path: Seq<char>, home: Seq<char>, stripped: Seq<char>) -> Seq<char> {
    if path.len() == 0 || path == "~"@ {
        home
    } else if starts_with(path, "~/"@) {
        home + seq!['/'] + stripped
    } else {
        path
    }
}

/// A number that tells the lines of scripts apart.
spec fn line_key(line: Seq<char>) -> int {
    line.len() * 1_000_000 + line[0] as int * 1_000 + line.last() as int
}

proof fn lemma_line_keys()
    ensures
        line_key("path=$1"@) == 7112049,
        line_key("if [ -z \"$path\" ]; then"@) == 23105110,
        line_key("  path=$HOME"@) == 12032069,
        line_key("fi"@) == 2102105,
        line_key("case \"$path\" in"@) == 15099110,
        line_key("  \"~\")"@) == 6032041,
        line_key("    path=$HOME"@) == 14032069,
        line_key("    ;;"@) == 6032059,
        line_key("  \"~/\"*)"@) == 8032041,
        line_key("    path=$HOME/${path#~/}"@) == 25032125,
        line_key("esac"@) == 4101099,
        line_key("cd -- \"$path\" 2>/dev/null || exit 1"@) == 35099049,
        line_key("pwd -P"@) == 6112080,
        line_key("printf '__PWD__%s\\n' \"$PWD\""@) == 27112034,
        line_key("if [ \"$PWD\" != \"/\" ]; then"@) == 26105110,
        line_key("  printf '__DIR__..\\n'"@) == 22032039,
        line_key("for entry in * .[!.]* ..?*; do"@) == 30102111,
        line_key("  [ -d \"$entry\" ] || continue"@) == 29032101,
        line_key("  printf '__DIR__%s\\n' \"$entry\""@) == 31032034,
        line_key("done"@) == 4100101,
{
    reveal_strlit("path=$1");
    reveal_strlit("if [ -z \"$path\" ]; then");
    reveal_strlit("  path=$HOME");
    reveal_strlit("fi");
    reveal_strlit("case \"$path\" in");
    reveal_strlit("  \"~\")");
    reveal_strlit("    path=$HOME");
    reveal_strlit("    ;;");
    reveal_strlit("  \"~/\"*)");
    reveal_strlit("    path=$HOME/${path#~/}");
    reveal_strlit("esac");
    reveal_strlit("cd -- \"$path\" 2>/dev/null || exit 1");
    reveal_strlit("pwd -P");
    reveal_strlit("printf '__PWD__%s\\n' \"$PWD\"");
    reveal_strlit("if [ \"$PWD\" != \"/\" ]; then");
    reveal_strlit("  printf '__DIR__..\\n'");
    reveal_strlit("for entry in * .[!.]* ..?*; do");
    reveal_strlit("  [ -d \"$entry\" ] || continue");
    reveal_strlit("  printf '__DIR__%s\\n' \"$entry\"");
    reveal_strlit("done");
}

/// The script from the `from`th character on, past its first line break.
spec fn resolve_from(from: int) -> Seq<char> {
    resolve_remote_dir_text().subrange(1 + from, 183)
}

proof fn lemma_resolve_0()
    ensures
        lines(resolve_from(0)) == seq!["path=$1"@] + lines(resolve_from(8)),
{
    reveal_strlit("\npath=$1\nif [ -z \"$path\" ]; then\n  path=$HOME\nfi\ncase \"$path\" in\n  \"~\")\n    path=$HOME\n    ;;\n  \"~/\"*)\n    path=$HOME/${path#~/}\n    ;;\nesac\ncd -- \"$path\" 2>/dev/null || exit 1\npwd -P\n");
    reveal_strlit("path=$1");
    let line = "path=$1"@;
    let spelled = seq!['p', 'a', 't', 'h', '=', '$', '1'];
    assert(line =~= spelled);
    let text = resolve_remote_dir_text();
    assert(text.subrange(1, 8) =~= spelled);
    assert(!line.contains('\n'));
    assert(text[8] == '\n');
    assert(resolve_from(0) =~= text.subrange(1, 8).push('\n') + resolve_from(8));
    law_lines_end_at_line_feeds(line, resolve_from(8));
}

proof fn lemma_resolve_1()
    ensures
        lines(resolve_from(8)) == seq!["if [ -z \"$path\" ]; then"@] + lines(resolve_from(32)),
{
    reveal_strlit("\npath=$1\nif [ -z \"$path\" ]; then\n  path=$HOME\nfi\ncase \"$path\" in\n  \"~\")\n    path=$HOME\n    ;;\n  \"~/\"*)\n    path=$HOME/${path#~/}\n    ;;\nesac\ncd -- \"$path\" 2>/dev/null || exit 1\npwd -P\n");
    reveal_strlit("if [ -z \"$path\" ]; then");
    let line = "if [ -z \"$path\" ]; then"@;
    let spelled = seq!['i', 'f', ' ', '[', ' ', '-', 'z', ' ', '"', '$', 'p', 'a', 't', 'h', '"', ' ', ']', ';', ' ', 't', 'h', 'e', 'n'];
    assert(line =~= spelled);
    let text = resolve_remote_dir_text();
    assert(text.subrange(9, 32) =~= spelled);
    assert(!line.contains('\n'));
    assert(text[32] == '\n');
    assert(resolve_from(8) =~= text.subrange(9, 32).push('\n') + resolve_from(32));
    law_lines_end_at_line_feeds(line, resolve_from(32));
}

proof fn lemma_resolve_2()
    ensures
        lines(resolve_from(32)) == seq!["  path=$HOME"@] + lines(resolve_from(45)),
{
    reveal_strlit("\npath=$1\nif [ -z \"$path\" ]; then\n  path=$HOME\nfi\ncase \"$path\" in\n  \"~\")\n    path=$HOME\n    ;;\n  \"~/\"*)\n    path=$HOME/${path#~/}\n    ;;\nesac\ncd -- \"$path\" 2>/dev/null || exit 1\npwd -P\n");
    reveal_strlit("  path=$HOME");
    let line = "  path=$HOME"@;
    let spelled = seq![' ', ' ', 'p', 'a', 't', 'h', '=', '$', 'H', 'O', 'M', 'E'];
    assert(line =~= spelled);
    let text = resolve_remote_dir_text();
    assert(text.subrange(33, 45) =~= spelled);
    assert(!line.contains('\n'));
    assert(text[45] == '\n');
    assert(resolve_from(32) =~= text.subrange(33, 45).push('\n') + resolve_from(45));
    law_lines_end_at_line_feeds(line, resolve_from(45));
}

proof fn lemma_resolve_3()
    ensures
        lines(resolve_from(45)) == seq!["fi"@] + lines(resolve_from(48)),
{
    reveal_strlit("\npath=$1\nif [ -z \"$path\" ]; then\n  path=$HOME\nfi\ncase \"$path\" in\n  \"~\")\n    path=$HOME\n    ;;\n  \"~/\"*)\n    path=$HOME/${path#~/}\n    ;;\nesac\ncd -- \"$path\" 2>/dev/null || exit 1\npwd -P\n");
    reveal_strlit("fi");
    let line = "fi"@;
    let spelled = seq!['f', 'i'];
    assert(line =~= spelled);
    let text = resolve_remote_dir_text();
    assert(text.subrange(46, 48) =~= spelled);
    assert(!line.contains('\n'));
    assert(text[48] == '\n');
    assert(resolve_from(45) =~= text.subrange(46, 48).push('\n') + resolve_from(48));
    law_lines_end_at_line_feeds(line, resolve_from(48));
}

proof fn lemma_resolve_4()
    ensures
        lines(resolve_from(48)) == seq!["case \"$path\" in"@] + lines(resolve_from(64)),
{
    reveal_strlit("\npath=$1\nif [ -z \"$path\" ]; then\n  path=$HOME\nfi\ncase \"$path\" in\n  \"~\")\n    path=$HOME\n    ;;\n  \"~/\"*)\n    path=$HOME/${path#~/}\n    ;;\nesac\ncd -- \"$path\" 2>/dev/null || exit 1\npwd -P\n");
    reveal_strlit("case \"$path\" in");
    let line = "case \"$path\" in"@;
    let spelled = seq!['c', 'a', 's', 'e', ' ', '"', '$', 'p', 'a', 't', 'h', '"', ' ', 'i', 'n'];
    assert(line =~= spelled);
    let text = resolve_remote_dir_text();
    assert(text.subrange(49, 64) =~= spelled);
    assert(!line.contains('\n'));
    assert(text[64] == '\n');
    assert(resolve_from(48) =~= text.subrange(49, 64).push('\n') + resolve_from(64));
    law_lines_end_at_line_feeds(line, resolve_from(64));
}

proof fn lemma_resolve_5()
    ensures
        lines(resolve_from(64)) == seq!["  \"~\")"@] + lines(resolve_from(71)),
{
    reveal_strlit("\npath=$1\nif [ -z \"$path\" ]; then\n  path=$HOME\nfi\ncase \"$path\" in\n  \"~\")\n    path=$HOME\n    ;;\n  \"~/\"*)\n    path=$HOME/${path#~/}\n    ;;\nesac\ncd -- \"$path\" 2>/dev/null || exit 1\npwd -P\n");
    reveal_strlit("  \"~\")");
    let line = "  \"~\")"@;
    let spelled = seq![' ', ' ', '"', '~', '"', ')'];
    assert(line =~= spelled);
    let text = resolve_remote_dir_text();
    assert(text.subrange(65, 71) =~= spelled);
    assert(!line.contains('\n'));
    assert(text[71] == '\n');
    assert(resolve_from(64) =~= text.subrange(65, 71).push('\n') + resolve_from(71));
    law_lines_end_at_line_feeds(line, resolve_from(71));
}

proof fn lemma_resolve_6()
    ensures
        lines(resolve_from(71)) == seq!["    path=$HOME"@] + lines(resolve_from(86)),
{
    reveal_strlit("\npath=$1\nif [ -z \"$path\" ]; then\n  path=$HOME\nfi\ncase \"$path\" in\n  \"~\")\n    path=$HOME\n    ;;\n  \"~/\"*)\n    path=$HOME/${path#~/}\n    ;;\nesac\ncd -- \"$path\" 2>/dev/null || exit 1\npwd -P\n");
    reveal_strlit("    path=$HOME");
    let line = "    path=$HOME"@;
    let spelled = seq![' ', ' ', ' ', ' ', 'p', 'a', 't', 'h', '=', '$', 'H', 'O', 'M', 'E'];
    assert(line =~= spelled);
    let text = resolve_remote_dir_text();
    assert(text.subrange(72, 86) =~= spelled);
    assert(!line.contains('\n'));
    assert(text[86] == '\n');
    assert(resolve_from(71) =~= text.subrange(72, 86).push('\n') + resolve_from(86));
    law_lines_end_at_line_feeds(line, resolve_from(86));
}

proof fn lemma_resolve_7()
    ensures
        lines(resolve_from(86)) == seq!["    ;;"@] + lines(resolve_from(93)),
{
    reveal_strlit("\npath=$1\nif [ -z \"$path\" ]; then\n  path=$HOME\nfi\ncase \"$path\" in\n  \"~\")\n    path=$HOME\n    ;;\n  \"~/\"*)\n    path=$HOME/${path#~/}\n    ;;\nesac\ncd -- \"$path\" 2>/dev/null || exit 1\npwd -P\n");
    reveal_strlit("    ;;");
    let line = "    ;;"@;
    let spelled = seq![' ', ' ', ' ', ' ', ';', ';'];
    assert(line =~= spelled);
    let text = resolve_remote_dir_text();
    assert(text.subrange(87, 93) =~= spelled);
    assert(!line.contains('\n'));
    assert(text[93] == '\n');
    assert(resolve_from(86) =~= text.subrange(87, 93).push('\n') + resolve_from(93));
    law_lines_end_at_line_feeds(line, resolve_from(93));
}

proof fn lemma_resolve_8()
    ensures
        lines(resolve_from(93)) == seq!["  \"~/\"*)"@] + lines(resolve_from(102)),
{
    reveal_strlit("\npath=$1\nif [ -z \"$path\" ]; then\n  path=$HOME\nfi\ncase \"$path\" in\n  \"~\")\n    path=$HOME\n    ;;\n  \"~/\"*)\n    path=$HOME/${path#~/}\n    ;;\nesac\ncd -- \"$path\" 2>/dev/null || exit 1\npwd -P\n");
    reveal_strlit("  \"~/\"*)");
    let line = "  \"~/\"*)"@;
    let spelled = seq![' ', ' ', '"', '~', '/', '"', '*', ')'];
    assert(line =~= spelled);
    let text = resolve_remote_dir_text();
    assert(text.subrange(94, 102) =~= spelled);
    assert(!line.contains('\n'));
    assert(text[102] == '\n');
    assert(resolve_from(93) =~= text.subrange(94, 102).push('\n') + resolve_from(102));
    law_lines_end_at_line_feeds(line, resolve_from(102));
}

proof fn lemma_resolve_9()
    ensures
        lines(resolve_from(102)) == seq!["    path=$HOME/${path#~/}"@] + lines(resolve_from(128)),
{
    reveal_strlit("\npath=$1\nif [ -z \"$path\" ]; then\n  path=$HOME\nfi\ncase \"$path\" in\n  \"~\")\n    path=$HOME\n    ;;\n  \"~/\"*)\n    path=$HOME/${path#~/}\n    ;;\nesac\ncd -- \"$path\" 2>/dev/null || exit 1\npwd -P\n");
    reveal_strlit("    path=$HOME/${path#~/}");
    let line = "    path=$HOME/${path#~/}"@;
    let spelled = seq![' ', ' ', ' ', ' ', 'p', 'a', 't', 'h', '=', '$', 'H', 'O', 'M', 'E', '/', '$', '{', 'p', 'a', 't', 'h', '#', '~', '/', '}'];
    assert(line =~= spelled);
    let text = resolve_remote_dir_text();
    assert(text.subrange(103, 128) =~= spelled);
    assert(!line.contains('\n'));
    assert(text[128] == '\n');
    assert(resolve_from(102) =~= text.subrange(103, 128).push('\n') + resolve_from(128));
    law_lines_end_at_line_feeds(line, resolve_from(128));
}

proof fn lemma_resolve_10()
    ensures
        lines(resolve_from(128)) == seq!["    ;;"@] + lines(resolve_from(135)),
{
    reveal_strlit("\npath=$1\nif [ -z \"$path\" ]; then\n  path=$HOME\nfi\ncase \"$path\" in\n  \"~\")\n    path=$HOME\n    ;;\n  \"~/\"*)\n    path=$HOME/${path#~/}\n    ;;\nesac\ncd -- \"$path\" 2>/dev/null || exit 1\npwd -P\n");
    reveal_strlit("    ;;");
    let line = "    ;;"@;
    let spelled = seq![' ', ' ', ' ', ' ', ';', ';'];
    assert(line =~= spelled);
    let text = resolve_remote_dir_text();
    assert(text.subrange(129, 135) =~= spelled);
    assert(!line.contains('\n'));
    assert(text[135] == '\n');
    assert(resolve_from(128) =~= text.subrange(129, 135).push('\n') + resolve_from(135));
    law_lines_end_at_line_feeds(line, resolve_from(135));
}

proof fn lemma_resolve_11()
    ensures
        lines(resolve_from(135)) == seq!["esac"@] + lines(resolve_from(140)),
{
    reveal_strlit("\npath=$1\nif [ -z \"$path\" ]; then\n  path=$HOME\nfi\ncase \"$path\" in\n  \"~\")\n    path=$HOME\n    ;;\n  \"~/\"*)\n    path=$HOME/${path#~/}\n    ;;\nesac\ncd -- \"$path\" 2>/dev/null || exit 1\npwd -P\n");
    reveal_strlit("esac");
    let line = "esac"@;
    let spelled = seq!['e', 's', 'a', 'c'];
    assert(line =~= spelled);
    let text = resolve_remote_dir_text();
    assert(text.subrange(136, 140) =~= spelled);
    assert(!line.contains('\n'));
    assert(text[140] == '\n');
    assert(resolve_from(135) =~= text.subrange(136, 140).push('\n') + resolve_from(140));
    law_lines_end_at_line_feeds(line, resolve_from(140));
}

proof fn lemma_resolve_12()
    ensures
        lines(resolve_from(140)) == seq!["cd -- \"$path\" 2>/dev/null || exit 1"@] + lines(resolve_from(176)),
{
    reveal_strlit("\npath=$1\nif [ -z \"$path\" ]; then\n  path=$HOME\nfi\ncase \"$path\" in\n  \"~\")\n    path=$HOME\n    ;;\n  \"~/\"*)\n    path=$HOME/${path#~/}\n    ;;\nesac\ncd -- \"$path\" 2>/dev/null || exit 1\npwd -P\n");
    reveal_strlit("cd -- \"$path\" 2>/dev/null || exit 1");
    let line = "cd -- \"$path\" 2>/dev/null || exit 1"@;
    let spelled = seq!['c', 'd', ' ', '-', '-', ' ', '"', '$', 'p', 'a', 't', 'h', '"', ' ', '2', '>', '/', 'd', 'e', 'v', '/', 'n', 'u', 'l', 'l', ' ', '|', '|', ' ', 'e', 'x', 'i', 't', ' ', '1'];
    assert(line =~= spelled);
    let text = resolve_remote_dir_text();
    assert(text.subrange(141, 176) =~= spelled);
    assert(!line.contains('\n'));
    assert(text[176] == '\n');
    assert(resolve_from(140) =~= text.subrange(141, 176).push('\n') + resolve_from(176));
    law_lines_end_at_line_feeds(line, resolve_from(176));
}

proof fn lemma_resolve_13()
    ensures
        lines(resolve_from(176)) == seq!["pwd -P"@],
{
    reveal_strlit("\npath=$1\nif [ -z \"$path\" ]; then\n  path=$HOME\nfi\ncase \"$path\" in\n  \"~\")\n    path=$HOME\n    ;;\n  \"~/\"*)\n    path=$HOME/${path#~/}\n    ;;\nesac\ncd -- \"$path\" 2>/dev/null || exit 1\npwd -P\n");
    reveal_strlit("pwd -P");
    let line = "pwd -P"@;
    let spelled = seq!['p', 'w', 'd', ' ', '-', 'P'];
    assert(line =~= spelled);
    let text = resolve_remote_dir_text();
    assert(text.subrange(177, 183) =~= spelled);
    assert(!line.contains('\n'));
    assert(resolve_from(176) =~= text.subrange(177, 183));
    law_lines_end_at_line_feeds(line, Seq::empty());
}

proof fn lemma_resolve_is_trimmed()
    ensures
        trim(resolve_remote_dir_text()) == resolve_from(0),
{
    reveal_strlit("\npath=$1\nif [ -z \"$path\" ]; then\n  path=$HOME\nfi\ncase \"$path\" in\n  \"~\")\n    path=$HOME\n    ;;\n  \"~/\"*)\n    path=$HOME/${path#~/}\n    ;;\nesac\ncd -- \"$path\" 2>/dev/null || exit 1\npwd -P\n");
    let text = resolve_remote_dir_text();
    lemma_trim_start(text, 1);
    let t = text.skip(1);
    lemma_trim_end(t, 182);
    assert(t.take(182) =~= resolve_from(0));
}

proof fn lemma_resolve_lines()
    ensures
        lines(resolve_from(0)) == seq![
            "path=$1"@,
            "if [ -z \"$path\" ]; then"@,
            "  path=$HOME"@,
            "fi"@,
            "case \"$path\" in"@,
            "  \"~\")"@,
            "    path=$HOME"@,
            "    ;;"@,
            "  \"~/\"*)"@,
            "    path=$HOME/${path#~/}"@,
            "    ;;"@,
            "esac"@,
            "cd -- \"$path\" 2>/dev/null || exit 1"@,
            "pwd -P"@,
        ],
{
    lemma_resolve_0();
    lemma_resolve_1();
    lemma_resolve_2();
    lemma_resolve_3();
    lemma_resolve_4();
    lemma_resolve_5();
    lemma_resolve_6();
    lemma_resolve_7();
    lemma_resolve_8();
    lemma_resolve_9();
    lemma_resolve_10();
    lemma_resolve_11();
    lemma_resolve_12();
    lemma_resolve_13();
    assert(lines(resolve_from(0)) =~= seq![
        "path=$1"@,
        "if [ -z \"$path\" ]; then"@,
        "  path=$HOME"@,
        "fi"@,
        "case \"$path\" in"@,
        "  \"~\")"@,
        "    path=$HOME"@,
        "    ;;"@,
        "  \"~/\"*)"@,
        "    path=$HOME/${path#~/}"@,
        "    ;;"@,
        "esac"@,
        "cd -- \"$path\" 2>/dev/null || exit 1"@,
        "pwd -P"@,
    ]);
}

/// The script from the `from`th character on, past its first line break.
spec fn list_from(from: int) -> Seq<char> {
    list_remote_dirs_text().subrange(1 + from, 355)
}

proof fn lemma_list_0()
    ensures
        lines(list_from(0)) == seq!["path=$1"@] + lines(list_from(8)),
{
    reveal_strlit("\npath=$1\nif [ -z \"$path\" ]; then\n  path=$HOME\nfi\ncase \"$path\" in\n  \"~\")\n    path=$HOME\n    ;;\n  \"~/\"*)\n    path=$HOME/${path#~/}\n    ;;\nesac\ncd -- \"$path\" 2>/dev/null || exit 1\nprintf '__PWD__%s\\n' \"$PWD\"\nif [ \"$PWD\" != \"/\" ]; then\n  printf '__DIR__..\\n'\nfi\nfor entry in * .[!.]* ..?*; do\n  [ -d \"$entry\" ] || continue\n  printf '__DIR__%s\\n' \"$entry\"\ndone\n");
    reveal_strlit("path=$1");
    let line = "path=$1"@;
    let spelled = seq!['p', 'a', 't', 'h', '=', '$', '1'];
    assert(line =~= spelled);
    let text = list_remote_dirs_text();
    assert(text.subrange(1, 8) =~= spelled);
    assert(!line.contains('\n'));
    assert(text[8] == '\n');
    assert(list_from(0) =~= text.subrange(1, 8).push('\n') + list_from(8));
    law_lines_end_at_line_feeds(line, list_from(8));
}

proof fn lemma_list_1()
    ensures
        lines(list_from(8)) == seq!["if [ -z \"$path\" ]; then"@] + lines(list_from(32)),
{
    reveal_strlit("\npath=$1\nif [ -z \"$path\" ]; then\n  path=$HOME\nfi\ncase \"$path\" in\n  \"~\")\n    path=$HOME\n    ;;\n  \"~/\"*)\n    path=$HOME/${path#~/}\n    ;;\nesac\ncd -- \"$path\" 2>/dev/null || exit 1\nprintf '__PWD__%s\\n' \"$PWD\"\nif [ \"$PWD\" != \"/\" ]; then\n  printf '__DIR__..\\n'\nfi\nfor entry in * .[!.]* ..?*; do\n  [ -d \"$entry\" ] || continue\n  printf '__DIR__%s\\n' \"$entry\"\ndone\n");
    reveal_strlit("if [ -z \"$path\" ]; then");
    let line = "if [ -z \"$path\" ]; then"@;
    let spelled = seq!['i', 'f', ' ', '[', ' ', '-', 'z', ' ', '"', '$', 'p', 'a', 't', 'h', '"', ' ', ']', ';', ' ', 't', 'h', 'e', 'n'];
    assert(line =~= spelled);
    let text = list_remote_dirs_text();
    assert(text.subrange(9, 32) =~= spelled);
    assert(!line.contains('\n'));
    assert(text[32] == '\n');
    assert(list_from(8) =~= text.subrange(9, 32).push('\n') + list_from(32));
    law_lines_end_at_line_feeds(line, list_from(32));
}

proof fn lemma_list_2()
    ensures
        lines(list_from(32)) == seq!["  path=$HOME"@] + lines(list_from(45)),
{
    reveal_strlit("\npath=$1\nif [ -z \"$path\" ]; then\n  path=$HOME\nfi\ncase \"$path\" in\n  \"~\")\n    path=$HOME\n    ;;\n  \"~/\"*)\n    path=$HOME/${path#~/}\n    ;;\nesac\ncd -- \"$path\" 2>/dev/null || exit 1\nprintf '__PWD__%s\\n' \"$PWD\"\nif [ \"$PWD\" != \"/\" ]; then\n  printf '__DIR__..\\n'\nfi\nfor entry in * .[!.]* ..?*; do\n  [ -d \"$entry\" ] || continue\n  printf '__DIR__%s\\n' \"$entry\"\ndone\n");
    reveal_strlit("  path=$HOME");
    let line = "  path=$HOME"@;
    let spelled = seq![' ', ' ', 'p', 'a', 't', 'h', '=', '$', 'H', 'O', 'M', 'E'];
    assert(line =~= spelled);
    let text = list_remote_dirs_text();
    assert(text.subrange(33, 45) =~= spelled);
    assert(!line.contains('\n'));
    assert(text[45] == '\n');
    assert(list_from(32) =~= text.subrange(33, 45).push('\n') + list_from(45));
    law_lines_end_at_line_feeds(line, list_from(45));
}

proof fn lemma_list_3()
    ensures
        lines(list_from(45)) == seq!["fi"@] + lines(list_from(48)),
{
    reveal_strlit("\npath=$1\nif [ -z \"$path\" ]; then\n  path=$HOME\nfi\ncase \"$path\" in\n  \"~\")\n    path=$HOME\n    ;;\n  \"~/\"*)\n    path=$HOME/${path#~/}\n    ;;\nesac\ncd -- \"$path\" 2>/dev/null || exit 1\nprintf '__PWD__%s\\n' \"$PWD\"\nif [ \"$PWD\" != \"/\" ]; then\n  printf '__DIR__..\\n'\nfi\nfor entry in * .[!.]* ..?*; do\n  [ -d \"$entry\" ] || continue\n  printf '__DIR__%s\\n' \"$entry\"\ndone\n");
    reveal_strlit("fi");
    let line = "fi"@;
    let spelled = seq!['f', 'i'];
    assert(line =~= spelled);
    let text = list_remote_dirs_text();
    assert(text.subrange(46, 48) =~= spelled);
    assert(!line.contains('\n'));
    assert(text[48] == '\n');
    assert(list_from(45) =~= text.subrange(46, 48).push('\n') + list_from(48));
    law_lines_end_at_line_feeds(line, list_from(48));
}

proof fn lemma_list_4()
    ensures
        lines(list_from(48)) == seq!["case \"$path\" in"@] + lines(list_from(64)),
{
    reveal_strlit("\npath=$1\nif [ -z \"$path\" ]; then\n  path=$HOME\nfi\ncase \"$path\" in\n  \"~\")\n    path=$HOME\n    ;;\n  \"~/\"*)\n    path=$HOME/${path#~/}\n    ;;\nesac\ncd -- \"$path\" 2>/dev/null || exit 1\nprintf '__PWD__%s\\n' \"$PWD\"\nif [ \"$PWD\" != \"/\" ]; then\n  printf '__DIR__..\\n'\nfi\nfor entry in * .[!.]* ..?*; do\n  [ -d \"$entry\" ] || continue\n  printf '__DIR__%s\\n' \"$entry\"\ndone\n");
    reveal_strlit("case \"$path\" in");
    let line = "case \"$path\" in"@;
    let spelled = seq!['c', 'a', 's', 'e', ' ', '"', '$', 'p', 'a', 't', 'h', '"', ' ', 'i', 'n'];
    assert(line =~= spelled);
    let text = list_remote_dirs_text();
    assert(text.subrange(49, 64) =~= spelled);
    assert(!line.contains('\n'));
    assert(text[64] == '\n');
    assert(list_from(48) =~= text.subrange(49, 64).push('\n') + list_from(64));
    law_lines_end_at_line_feeds(line, list_from(64));
}

proof fn lemma_list_5()
    ensures
        lines(list_from(64)) == seq!["  \"~\")"@] + lines(list_from(71)),
{
    reveal_strlit("\npath=$1\nif [ -z \"$path\" ]; then\n  path=$HOME\nfi\ncase \"$path\" in\n  \"~\")\n    path=$HOME\n    ;;\n  \"~/\"*)\n    path=$HOME/${path#~/}\n    ;;\nesac\ncd -- \"$path\" 2>/dev/null || exit 1\nprintf '__PWD__%s\\n' \"$PWD\"\nif [ \"$PWD\" != \"/\" ]; then\n  printf '__DIR__..\\n'\nfi\nfor entry in * .[!.]* ..?*; do\n  [ -d \"$entry\" ] || continue\n  printf '__DIR__%s\\n' \"$entry\"\ndone\n");
    reveal_strlit("  \"~\")");
    let line = "  \"~\")"@;
    let spelled = seq![' ', ' ', '"', '~', '"', ')'];
    assert(line =~= spelled);
    let text = list_remote_dirs_text();
    assert(text.subrange(65, 71) =~= spelled);
    assert(!line.contains('\n'));
    assert(text[71] == '\n');
    assert(list_from(64) =~= text.subrange(65, 71).push('\n') + list_from(71));
    law_lines_end_at_line_feeds(line, list_from(71));
}

proof fn lemma_list_6()
    ensures
        lines(list_from(71)) == seq!["    path=$HOME"@] + lines(list_from(86)),
{
    reveal_strlit("\npath=$1\nif [ -z \"$path\" ]; then\n  path=$HOME\nfi\ncase \"$path\" in\n  \"~\")\n    path=$HOME\n    ;;\n  \"~/\"*)\n    path=$HOME/${path#~/}\n    ;;\nesac\ncd -- \"$path\" 2>/dev/null || exit 1\nprintf '__PWD__%s\\n' \"$PWD\"\nif [ \"$PWD\" != \"/\" ]; then\n  printf '__DIR__..\\n'\nfi\nfor entry in * .[!.]* ..?*; do\n  [ -d \"$entry\" ] || continue\n  printf '__DIR__%s\\n' \"$entry\"\ndone\n");
    reveal_strlit("    path=$HOME");
    let line = "    path=$HOME"@;
    let spelled = seq![' ', ' ', ' ', ' ', 'p', 'a', 't', 'h', '=', '$', 'H', 'O', 'M', 'E'];
    assert(line =~= spelled);
    let text = list_remote_dirs_text();
    assert(text.subrange(72, 86) =~= spelled);
    assert(!line.contains('\n'));
    assert(text[86] == '\n');
    assert(list_from(71) =~= text.subrange(72, 86).push('\n') + list_from(86));
    law_lines_end_at_line_feeds(line, list_from(86));
}

proof fn lemma_list_7()
    ensures
        lines(list_from(86)) == seq!["    ;;"@] + lines(list_from(93)),
{
    reveal_strlit("\npath=$1\nif [ -z \"$path\" ]; then\n  path=$HOME\nfi\ncase \"$path\" in\n  \"~\")\n    path=$HOME\n    ;;\n  \"~/\"*)\n    path=$HOME/${path#~/}\n    ;;\nesac\ncd -- \"$path\" 2>/dev/null || exit 1\nprintf '__PWD__%s\\n' \"$PWD\"\nif [ \"$PWD\" != \"/\" ]; then\n  printf '__DIR__..\\n'\nfi\nfor entry in * .[!.]* ..?*; do\n  [ -d \"$entry\" ] || continue\n  printf '__DIR__%s\\n' \"$entry\"\ndone\n");
    reveal_strlit("    ;;");
    let line = "    ;;"@;
    let spelled = seq![' ', ' ', ' ', ' ', ';', ';'];
    assert(line =~= spelled);
    let text = list_remote_dirs_text();
    assert(text.subrange(87, 93) =~= spelled);
    assert(!line.contains('\n'));
    assert(text[93] == '\n');
    assert(list_from(86) =~= text.subrange(87, 93).push('\n') + list_from(93));
    law_lines_end_at_line_feeds(line, list_from(93));
}

proof fn lemma_list_8()
    ensures
        lines(list_from(93)) == seq!["  \"~/\"*)"@] + lines(list_from(102)),
{
    reveal_strlit("\npath=$1\nif [ -z \"$path\" ]; then\n  path=$HOME\nfi\ncase \"$path\" in\n  \"~\")\n    path=$HOME\n    ;;\n  \"~/\"*)\n    path=$HOME/${path#~/}\n    ;;\nesac\ncd -- \"$path\" 2>/dev/null || exit 1\nprintf '__PWD__%s\\n' \"$PWD\"\nif [ \"$PWD\" != \"/\" ]; then\n  printf '__DIR__..\\n'\nfi\nfor entry in * .[!.]* ..?*; do\n  [ -d \"$entry\" ] || continue\n  printf '__DIR__%s\\n' \"$entry\"\ndone\n");
    reveal_strlit("  \"~/\"*)");
    let line = "  \"~/\"*)"@;
    let spelled = seq![' ', ' ', '"', '~', '/', '"', '*', ')'];
    assert(line =~= spelled);
    let text = list_remote_dirs_text();
    assert(text.subrange(94, 102) =~= spelled);
    assert(!line.contains('\n'));
    assert(text[102] == '\n');
    assert(list_from(93) =~= text.subrange(94, 102).push('\n') + list_from(102));
    law_lines_end_at_line_feeds(line, list_from(102));
}

proof fn lemma_list_9()
    ensures
        lines(list_from(102)) == seq!["    path=$HOME/${path#~/}"@] + lines(list_from(128)),
{
    reveal_strlit("\npath=$1\nif [ -z \"$path\" ]; then\n  path=$HOME\nfi\ncase \"$path\" in\n  \"~\")\n    path=$HOME\n    ;;\n  \"~/\"*)\n    path=$HOME/${path#~/}\n    ;;\nesac\ncd -- \"$path\" 2>/dev/null || exit 1\nprintf '__PWD__%s\\n' \"$PWD\"\nif [ \"$PWD\" != \"/\" ]; then\n  printf '__DIR__..\\n'\nfi\nfor entry in * .[!.]* ..?*; do\n  [ -d \"$entry\" ] || continue\n  printf '__DIR__%s\\n' \"$entry\"\ndone\n");
    reveal_strlit("    path=$HOME/${path#~/}");
    let line = "    path=$HOME/${path#~/}"@;
    let spelled = seq![' ', ' ', ' ', ' ', 'p', 'a', 't', 'h', '=', '$', 'H', 'O', 'M', 'E', '/', '$', '{', 'p', 'a', 't', 'h', '#', '~', '/', '}'];
    assert(line =~= spelled);
    let text = list_remote_dirs_text();
    assert(text.subrange(103, 128) =~= spelled);
    assert(!line.contains('\n'));
    assert(text[128] == '\n');
    assert(list_from(102) =~= text.subrange(103, 128).push('\n') + list_from(128));
    law_lines_end_at_line_feeds(line, list_from(128));
}

proof fn lemma_list_10()
    ensures
        lines(list_from(128)) == seq!["    ;;"@] + lines(list_from(135)),
{
    reveal_strlit("\npath=$1\nif [ -z \"$path\" ]; then\n  path=$HOME\nfi\ncase \"$path\" in\n  \"~\")\n    path=$HOME\n    ;;\n  \"~/\"*)\n    path=$HOME/${path#~/}\n    ;;\nesac\ncd -- \"$path\" 2>/dev/null || exit 1\nprintf '__PWD__%s\\n' \"$PWD\"\nif [ \"$PWD\" != \"/\" ]; then\n  printf '__DIR__..\\n'\nfi\nfor entry in * .[!.]* ..?*; do\n  [ -d \"$entry\" ] || continue\n  printf '__DIR__%s\\n' \"$entry\"\ndone\n");
    reveal_strlit("    ;;");
    let line = "    ;;"@;
    let spelled = seq![' ', ' ', ' ', ' ', ';', ';'];
    assert(line =~= spelled);
    let text = list_remote_dirs_text();
    assert(text.subrange(129, 135) =~= spelled);
    assert(!line.contains('\n'));
    assert(text[135] == '\n');
    assert(list_from(128) =~= text.subrange(129, 135).push('\n') + list_from(135));
    law_lines_end_at_line_feeds(line, list_from(135));
}

proof fn lemma_list_11()
    ensures
        lines(list_from(135)) == seq!["esac"@] + lines(list_from(140)),
{
    reveal_strlit("\npath=$1\nif [ -z \"$path\" ]; then\n  path=$HOME\nfi\ncase \"$path\" in\n  \"~\")\n    path=$HOME\n    ;;\n  \"~/\"*)\n    path=$HOME/${path#~/}\n    ;;\nesac\ncd -- \"$path\" 2>/dev/null || exit 1\nprintf '__PWD__%s\\n' \"$PWD\"\nif [ \"$PWD\" != \"/\" ]; then\n  printf '__DIR__..\\n'\nfi\nfor entry in * .[!.]* ..?*; do\n  [ -d \"$entry\" ] || continue\n  printf '__DIR__%s\\n' \"$entry\"\ndone\n");
    reveal_strlit("esac");
    let line = "esac"@;
    let spelled = seq!['e', 's', 'a', 'c'];
    assert(line =~= spelled);
    let text = list_remote_dirs_text();
    assert(text.subrange(136, 140) =~= spelled);
    assert(!line.contains('\n'));
    assert(text[140] == '\n');
    assert(list_from(135) =~= text.subrange(136, 140).push('\n') + list_from(140));
    law_lines_end_at_line_feeds(line, list_from(140));
}

proof fn lemma_list_12()
    ensures
        lines(list_from(140)) == seq!["cd -- \"$path\" 2>/dev/null || exit 1"@] + lines(list_from(176)),
{
    reveal_strlit("\npath=$1\nif [ -z \"$path\" ]; then\n  path=$HOME\nfi\ncase \"$path\" in\n  \"~\")\n    path=$HOME\n    ;;\n  \"~/\"*)\n    path=$HOME/${path#~/}\n    ;;\nesac\ncd -- \"$path\" 2>/dev/null || exit 1\nprintf '__PWD__%s\\n' \"$PWD\"\nif [ \"$PWD\" != \"/\" ]; then\n  printf '__DIR__..\\n'\nfi\nfor entry in * .[!.]* ..?*; do\n  [ -d \"$entry\" ] || continue\n  printf '__DIR__%s\\n' \"$entry\"\ndone\n");
    reveal_strlit("cd -- \"$path\" 2>/dev/null || exit 1");
    let line = "cd -- \"$path\" 2>/dev/null || exit 1"@;
    let spelled = seq!['c', 'd', ' ', '-', '-', ' ', '"', '$', 'p', 'a', 't', 'h', '"', ' ', '2', '>', '/', 'd', 'e', 'v', '/', 'n', 'u', 'l', 'l', ' ', '|', '|', ' ', 'e', 'x', 'i', 't', ' ', '1'];
    assert(line =~= spelled);
    let text = list_remote_dirs_text();
    assert(text.subrange(141, 176) =~= spelled);
    assert(!line.contains('\n'));
    assert(text[176] == '\n');
    assert(list_from(140) =~= text.subrange(141, 176).push('\n') + list_from(176));
    law_lines_end_at_line_feeds(line, list_from(176));
}

proof fn lemma_list_13()
    ensures
        lines(list_from(176)) == seq!["printf '__PWD__%s\\n' \"$PWD\""@] + lines(list_from(204)),
{
    reveal_strlit("\npath=$1\nif [ -z \"$path\" ]; then\n  path=$HOME\nfi\ncase \"$path\" in\n  \"~\")\n    path=$HOME\n    ;;\n  \"~/\"*)\n    path=$HOME/${path#~/}\n    ;;\nesac\ncd -- \"$path\" 2>/dev/null || exit 1\nprintf '__PWD__%s\\n' \"$PWD\"\nif [ \"$PWD\" != \"/\" ]; then\n  printf '__DIR__..\\n'\nfi\nfor entry in * .[!.]* ..?*; do\n  [ -d \"$entry\" ] || continue\n  printf '__DIR__%s\\n' \"$entry\"\ndone\n");
    reveal_strlit("printf '__PWD__%s\\n' \"$PWD\"");
    let line = "printf '__PWD__%s\\n' \"$PWD\""@;
    let spelled = seq!['p', 'r', 'i', 'n', 't', 'f', ' ', '\'', '_', '_', 'P', 'W', 'D', '_', '_', '%', 's', '\\', 'n', '\'', ' ', '"', '$', 'P', 'W', 'D', '"'];
    assert(line =~= spelled);
    let text = list_remote_dirs_text();
    assert(text.subrange(177, 204) =~= spelled);
    assert(!line.contains('\n'));
    assert(text[204] == '\n');
    assert(list_from(176) =~= text.subrange(177, 204).push('\n') + list_from(204));
    law_lines_end_at_line_feeds(line, list_from(204));
}

proof fn lemma_list_14()
    ensures
        lines(list_from(204)) == seq!["if [ \"$PWD\" != \"/\" ]; then"@] + lines(list_from(231)),
{
    reveal_strlit("\npath=$1\nif [ -z \"$path\" ]; then\n  path=$HOME\nfi\ncase \"$path\" in\n  \"~\")\n    path=$HOME\n    ;;\n  \"~/\"*)\n    path=$HOME/${path#~/}\n    ;;\nesac\ncd -- \"$path\" 2>/dev/null || exit 1\nprintf '__PWD__%s\\n' \"$PWD\"\nif [ \"$PWD\" != \"/\" ]; then\n  printf '__DIR__..\\n'\nfi\nfor entry in * .[!.]* ..?*; do\n  [ -d \"$entry\" ] || continue\n  printf '__DIR__%s\\n' \"$entry\"\ndone\n");
    reveal_strlit("if [ \"$PWD\" != \"/\" ]; then");
    let line = "if [ \"$PWD\" != \"/\" ]; then"@;
    let spelled = seq!['i', 'f', ' ', '[', ' ', '"', '$', 'P', 'W', 'D', '"', ' ', '!', '=', ' ', '"', '/', '"', ' ', ']', ';', ' ', 't', 'h', 'e', 'n'];
    assert(line =~= spelled);
    let text = list_remote_dirs_text();
    assert(text.subrange(205, 231) =~= spelled);
    assert(!line.contains('\n'));
    assert(text[231] == '\n');
    assert(list_from(204) =~= text.subrange(205, 231).push('\n') + list_from(231));
    law_lines_end_at_line_feeds(line, list_from(231));
}

proof fn lemma_list_15()
    ensures
        lines(list_from(231)) == seq!["  printf '__DIR__..\\n'"@] + lines(list_from(254)),
{
    reveal_strlit("\npath=$1\nif [ -z \"$path\" ]; then\n  path=$HOME\nfi\ncase \"$path\" in\n  \"~\")\n    path=$HOME\n    ;;\n  \"~/\"*)\n    path=$HOME/${path#~/}\n    ;;\nesac\ncd -- \"$path\" 2>/dev/null || exit 1\nprintf '__PWD__%s\\n' \"$PWD\"\nif [ \"$PWD\" != \"/\" ]; then\n  printf '__DIR__..\\n'\nfi\nfor entry in * .[!.]* ..?*; do\n  [ -d \"$entry\" ] || continue\n  printf '__DIR__%s\\n' \"$entry\"\ndone\n");
    reveal_strlit("  printf '__DIR__..\\n'");
    let line = "  printf '__DIR__..\\n'"@;
    let spelled = seq![' ', ' ', 'p', 'r', 'i', 'n', 't', 'f', ' ', '\'', '_', '_', 'D', 'I', 'R', '_', '_', '.', '.', '\\', 'n', '\''];
    assert(line =~= spelled);
    let text = list_remote_dirs_text();
    assert(text.subrange(232, 254) =~= spelled);
    assert(!line.contains('\n'));
    assert(text[254] == '\n');
    assert(list_from(231) =~= text.subrange(232, 254).push('\n') + list_from(254));
    law_lines_end_at_line_feeds(line, list_from(254));
}

proof fn lemma_list_16()
    ensures
        lines(list_from(254)) == seq!["fi"@] + lines(list_from(257)),
{
    reveal_strlit("\npath=$1\nif [ -z \"$path\" ]; then\n  path=$HOME\nfi\ncase \"$path\" in\n  \"~\")\n    path=$HOME\n    ;;\n  \"~/\"*)\n    path=$HOME/${path#~/}\n    ;;\nesac\ncd -- \"$path\" 2>/dev/null || exit 1\nprintf '__PWD__%s\\n' \"$PWD\"\nif [ \"$PWD\" != \"/\" ]; then\n  printf '__DIR__..\\n'\nfi\nfor entry in * .[!.]* ..?*; do\n  [ -d \"$entry\" ] || continue\n  printf '__DIR__%s\\n' \"$entry\"\ndone\n");
    reveal_strlit("fi");
    let line = "fi"@;
    let spelled = seq!['f', 'i'];
    assert(line =~= spelled);
    let text = list_remote_dirs_text();
    assert(text.subrange(255, 257) =~= spelled);
    assert(!line.contains('\n'));
    assert(text[257] == '\n');
    assert(list_from(254) =~= text.subrange(255, 257).push('\n') + list_from(257));
    law_lines_end_at_line_feeds(line, list_from(257));
}

proof fn lemma_list_17()
    ensures
        lines(list_from(257)) == seq!["for entry in * .[!.]* ..?*; do"@] + lines(list_from(288)),
{
    reveal_strlit("\npath=$1\nif [ -z \"$path\" ]; then\n  path=$HOME\nfi\ncase \"$path\" in\n  \"~\")\n    path=$HOME\n    ;;\n  \"~/\"*)\n    path=$HOME/${path#~/}\n    ;;\nesac\ncd -- \"$path\" 2>/dev/null || exit 1\nprintf '__PWD__%s\\n' \"$PWD\"\nif [ \"$PWD\" != \"/\" ]; then\n  printf '__DIR__..\\n'\nfi\nfor entry in * .[!.]* ..?*; do\n  [ -d \"$entry\" ] || continue\n  printf '__DIR__%s\\n' \"$entry\"\ndone\n");
    reveal_strlit("for entry in * .[!.]* ..?*; do");
    let line = "for entry in * .[!.]* ..?*; do"@;
    let spelled = seq!['f', 'o', 'r', ' ', 'e', 'n', 't', 'r', 'y', ' ', 'i', 'n', ' ', '*', ' ', '.', '[', '!', '.', ']', '*', ' ', '.', '.', '?', '*', ';', ' ', 'd', 'o'];
    assert(line =~= spelled);
    let text = list_remote_dirs_text();
    assert(text.subrange(258, 288) =~= spelled);
    assert(!line.contains('\n'));
    assert(text[288] == '\n');
    assert(list_from(257) =~= text.subrange(258, 288).push('\n') + list_from(288));
    law_lines_end_at_line_feeds(line, list_from(288));
}

proof fn lemma_list_18()
    ensures
        lines(list_from(288)) == seq!["  [ -d \"$entry\" ] || continue"@] + lines(list_from(318)),
{
    reveal_strlit("\npath=$1\nif [ -z \"$path\" ]; then\n  path=$HOME\nfi\ncase \"$path\" in\n  \"~\")\n    path=$HOME\n    ;;\n  \"~/\"*)\n    path=$HOME/${path#~/}\n    ;;\nesac\ncd -- \"$path\" 2>/dev/null || exit 1\nprintf '__PWD__%s\\n' \"$PWD\"\nif [ \"$PWD\" != \"/\" ]; then\n  printf '__DIR__..\\n'\nfi\nfor entry in * .[!.]* ..?*; do\n  [ -d \"$entry\" ] || continue\n  printf '__DIR__%s\\n' \"$entry\"\ndone\n");
    reveal_strlit("  [ -d \"$entry\" ] || continue");
    let line = "  [ -d \"$entry\" ] || continue"@;
    let spelled = seq![' ', ' ', '[', ' ', '-', 'd', ' ', '"', '$', 'e', 'n', 't', 'r', 'y', '"', ' ', ']', ' ', '|', '|', ' ', 'c', 'o', 'n', 't', 'i', 'n', 'u', 'e'];
    assert(line =~= spelled);
    let text = list_remote_dirs_text();
    assert(text.subrange(289, 318) =~= spelled);
    assert(!line.contains('\n'));
    assert(text[318] == '\n');
    assert(list_from(288) =~= text.subrange(289, 318).push('\n') + list_from(318));
    law_lines_end_at_line_feeds(line, list_from(318));
}

proof fn lemma_list_19()
    ensures
        lines(list_from(318)) == seq!["  printf '__DIR__%s\\n' \"$entry\""@] + lines(list_from(350)),
{
    reveal_strlit("\npath=$1\nif [ -z \"$path\" ]; then\n  path=$HOME\nfi\ncase \"$path\" in\n  \"~\")\n    path=$HOME\n    ;;\n  \"~/\"*)\n    path=$HOME/${path#~/}\n    ;;\nesac\ncd -- \"$path\" 2>/dev/null || exit 1\nprintf '__PWD__%s\\n' \"$PWD\"\nif [ \"$PWD\" != \"/\" ]; then\n  printf '__DIR__..\\n'\nfi\nfor entry in * .[!.]* ..?*; do\n  [ -d \"$entry\" ] || continue\n  printf '__DIR__%s\\n' \"$entry\"\ndone\n");
    reveal_strlit("  printf '__DIR__%s\\n' \"$entry\"");
    let line = "  printf '__DIR__%s\\n' \"$entry\""@;
    let spelled = seq![' ', ' ', 'p', 'r', 'i', 'n', 't', 'f', ' ', '\'', '_', '_', 'D', 'I', 'R', '_', '_', '%', 's', '\\', 'n', '\'', ' ', '"', '$', 'e', 'n', 't', 'r', 'y', '"'];
    assert(line =~= spelled);
    let text = list_remote_dirs_text();
    assert(text.subrange(319, 350) =~= spelled);
    assert(!line.contains('\n'));
    assert(text[350] == '\n');
    assert(list_from(318) =~= text.subrange(319, 350).push('\n') + list_from(350));
    law_lines_end_at_line_feeds(line, list_from(350));
}

proof fn lemma_list_20()
    ensures
        lines(list_from(350)) == seq!["done"@],
{
    reveal_strlit("\npath=$1\nif [ -z \"$path\" ]; then\n  path=$HOME\nfi\ncase \"$path\" in\n  \"~\")\n    path=$HOME\n    ;;\n  \"~/\"*)\n    path=$HOME/${path#~/}\n    ;;\nesac\ncd -- \"$path\" 2>/dev/null || exit 1\nprintf '__PWD__%s\\n' \"$PWD\"\nif [ \"$PWD\" != \"/\" ]; then\n  printf '__DIR__..\\n'\nfi\nfor entry in * .[!.]* ..?*; do\n  [ -d \"$entry\" ] || continue\n  printf '__DIR__%s\\n' \"$entry\"\ndone\n");
    reveal_strlit("done");
    let line = "done"@;
    let spelled = seq!['d', 'o', 'n', 'e'];
    assert(line =~= spelled);
    let text = list_remote_dirs_text();
    assert(text.subrange(351, 355) =~= spelled);
    assert(!line.contains('\n'));
    assert(list_from(350) =~= text.subrange(351, 355));
    law_lines_end_at_line_feeds(line, Seq::empty());
}

proof fn lemma_list_is_trimmed()
    ensures
        trim(list_remote_dirs_text()) == list_from(0),
{
    reveal_strlit("\npath=$1\nif [ -z \"$path\" ]; then\n  path=$HOME\nfi\ncase \"$path\" in\n  \"~\")\n    path=$HOME\n    ;;\n  \"~/\"*)\n    path=$HOME/${path#~/}\n    ;;\nesac\ncd -- \"$path\" 2>/dev/null || exit 1\nprintf '__PWD__%s\\n' \"$PWD\"\nif [ \"$PWD\" != \"/\" ]; then\n  printf '__DIR__..\\n'\nfi\nfor entry in * .[!.]* ..?*; do\n  [ -d \"$entry\" ] || continue\n  printf '__DIR__%s\\n' \"$entry\"\ndone\n");
    let text = list_remote_dirs_text();
    lemma_trim_start(text, 1);
    let t = text.skip(1);
    lemma_trim_end(t, 354);
    assert(t.take(354) =~= list_from(0));
}

proof fn lemma_list_lines()
    ensures
        lines(list_from(0)) == seq![
            "path=$1"@,
            "if [ -z \"$path\" ]; then"@,
            "  path=$HOME"@,
            "fi"@,
            "case \"$path\" in"@,
            "  \"~\")"@,
            "    path=$HOME"@,
            "    ;;"@,
            "  \"~/\"*)"@,
            "    path=$HOME/${path#~/}"@,
            "    ;;"@,
            "esac"@,
            "cd -- \"$path\" 2>/dev/null || exit 1"@,
            "printf '__PWD__%s\\n' \"$PWD\""@,
            "if [ \"$PWD\" != \"/\" ]; then"@,
            "  printf '__DIR__..\\n'"@,
            "fi"@,
            "for entry in * .[!.]* ..?*; do"@,
            "  [ -d \"$entry\" ] || continue"@,
            "  printf '__DIR__%s\\n' \"$entry\""@,
            "done"@,
        ],
{
    lemma_list_0();
    lemma_list_1();
    lemma_list_2();
    lemma_list_3();
    lemma_list_4();
    lemma_list_5();
    lemma_list_6();
    lemma_list_7();
    lemma_list_8();
    lemma_list_9();
    lemma_list_10();
    lemma_list_11();
    lemma_list_12();
    lemma_list_13();
    lemma_list_14();
    lemma_list_15();
    lemma_list_16();
    lemma_list_17();
    lemma_list_18();
    lemma_list_19();
    lemma_list_20();
    assert(lines(list_from(0)) =~= seq![
        "path=$1"@,
        "if [ -z \"$path\" ]; then"@,
        "  path=$HOME"@,
        "fi"@,
        "case \"$path\" in"@,
        "  \"~\")"@,
        "    path=$HOME"@,
        "    ;;"@,
        "  \"~/\"*)"@,
        "    path=$HOME/${path#~/}"@,
        "    ;;"@,
        "esac"@,
        "cd -- \"$path\" 2>/dev/null || exit 1"@,
        "printf '__PWD__%s\\n' \"$PWD\""@,
        "if [ \"$PWD\" != \"/\" ]; then"@,
        "  printf '__DIR__..\\n'"@,
        "fi"@,
        "for entry in * .[!.]* ..?*; do"@,
        "  [ -d \"$entry\" ] || continue"@,
        "  printf '__DIR__%s\\n' \"$entry\""@,
        "done"@,
    ]);
}

proof fn lemma_run_step(host: Browser, script: Seq<Seq<char>>, args: Seq<Seq<char>>, at: int)
    requires
        0 <= at < script.len(),
    ensures
        host.run(script.skip(at), args) == host.line(script[at], args).run(
            script.skip(at + 1),
            args,
        ),
{
    assert(script.skip(at)[0] == script[at]);
    assert(script.skip(at).drop_first() =~= script.skip(at + 1));
}

proof fn lemma_stopped(host: Browser, script: Seq<Seq<char>>, args: Seq<Seq<char>>)
    requires
        !(host.progress is Running),
    ensures
        host.run(script, args) == host,
    decreases script.len(),
{
    if script.len() > 0 {
        lemma_stopped(host, script.drop_first(), args);
    }
}

/// Both scripts go to the directory that is asked for before they do anything
/// else, and fail where there is none.
proof fn lemma_goes_there(start: Browser, script: Seq<Seq<char>>, path: Seq<char>)
    requires
        start.progress is Running,
        start.mode is Go,
        start.home != "~"@,
        !starts_with(start.home, "~/"@),
        script.len() > 13,
        script[0] == "path=$1"@,
        script[1] == "if [ -z \"$path\" ]; then"@,
        script[2] == "  path=$HOME"@,
        script[3] == "fi"@,
        script[4] == "case \"$path\" in"@,
        script[5] == "  \"~\")"@,
        script[6] == "    path=$HOME"@,
        script[7] == "    ;;"@,
        script[8] == "  \"~/\"*)"@,
        script[9] == "    path=$HOME/${path#~/}"@,
        script[10] == "    ;;"@,
        script[11] == "esac"@,
        script[12] == "cd -- \"$path\" 2>/dev/null || exit 1"@,
    ensures
        ({
            let target = asked_for(path, start.home, start.stripped);
            let args = seq![path];
            &&& start.places.dom().contains(target) ==> start.run(script, args) == (Browser {
                path: target,
                here: start.places[target],
                ..start
            }).run(script.skip(13), args)
            &&& !start.places.dom().contains(target) ==> start.run(script, args) == (Browser {
                path: target,
                progress: Progress::Failed,
                ..start
            })
        }),
{
    let args = seq![path];
    lemma_line_keys();
    reveal_strlit("~");
    reveal_strlit("~/");
    assert("~"@ =~= seq!['~']);
    assert("~/"@ =~= seq!['~', '/']);
    let target = asked_for(path, start.home, start.stripped);
    assert(script.skip(0) =~= script);
    let h0 = start;
    lemma_run_step(h0, script, args, 0);
    let h1 = h0.line("path=$1"@, args);
    assert(h1 == (Browser { path, ..start }));
    lemma_run_step(h1, script, args, 1);
    let h2 = h1.line("if [ -z \"$path\" ]; then"@, args);
    lemma_run_step(h2, script, args, 2);
    let h3 = h2.line("  path=$HOME"@, args);
    lemma_run_step(h3, script, args, 3);
    let h4 = h3.line("fi"@, args);
    let first = if path.len() == 0 {
        start.home
    } else {
        path
    };
    assert(h4 == (Browser { path: first, ..start }));
    lemma_run_step(h4, script, args, 4);
    let h5 = h4.line("case \"$path\" in"@, args);
    assert(h5 == (Browser { path: first, mode: Mode::SkipArm, ..start }));
    lemma_run_step(h5, script, args, 5);
    let h6 = h5.line("  \"~\")"@, args);
    lemma_run_step(h6, script, args, 6);
    let h7 = h6.line("    path=$HOME"@, args);
    lemma_run_step(h7, script, args, 7);
    let h8 = h7.line("    ;;"@, args);
    lemma_run_step(h8, script, args, 8);
    let h9 = h8.line("  \"~/\"*)"@, args);
    lemma_run_step(h9, script, args, 9);
    let h10 = h9.line("    path=$HOME/${path#~/}"@, args);
    lemma_run_step(h10, script, args, 10);
    let h11 = h10.line("    ;;"@, args);
    lemma_run_step(h11, script, args, 11);
    let h12 = h11.line("esac"@, args);
    assert(h12 == (Browser { path: target, ..start }));
    lemma_run_step(h12, script, args, 12);
    let h13 = h12.line("cd -- \"$path\" 2>/dev/null || exit 1"@, args);
    if !(h13.progress is Running) {
        lemma_stopped(h13, script.skip(13), args);
    }
}

/// Resolving a path prints the one place it leads to, with every link followed;
/// a path that leads nowhere prints nothing and fails. Without a path that is the
/// home directory, as it is for a tilde.
pub proof fn law_resolving_prints_the_place(
    places: Map<Seq<char>, (Seq<char>, Seq<char>)>,
    entries: Map<Seq<char>, Entries>,
    home: Seq<char>,
    stripped: Seq<char>,
    path: Seq<char>,
)
    requires
        home != "~"@,
        !starts_with(home, "~/"@),
    ensures
        ({
            let target = asked_for(path, home, stripped);
            let end = Browser::fresh(places, entries, home, stripped).command(
                shell_command(resolve_remote_dir_text(), seq![path]),
            );
            &&& places.dom().contains(target) ==> end.progress is Running && end.printed =~= seq![
                places[target].1,
            ]
            &&& !places.dom().contains(target) ==> end.progress is Failed && end.printed.len() == 0
        }),
{
    let args = seq![path];
    let text = resolve_remote_dir_text();
    law_remote_shell_gets_each_argument_whole(text, args);
    lemma_resolve_is_trimmed();
    let words = seq![seq!['s', 'h'], seq!['-', 'c'], trim(text), seq!['-', '-']] + args;
    assert(words.skip(4) =~= args);
    lemma_resolve_lines();
    lemma_line_keys();
    let script = lines(resolve_from(0));
    let start = Browser::fresh(places, entries, home, stripped);
    lemma_goes_there(start, script, path);
    let target = asked_for(path, home, stripped);
    if places.dom().contains(target) {
        let there = Browser { path: target, here: places[target], ..start };
        lemma_run_step(there, script, args, 13);
        let end = there.line("pwd -P"@, args);
        assert(script.skip(14) =~= Seq::<Seq<char>>::empty());
        assert(end.run(script.skip(14), args) == end);
    }
}

/// Listing a path prints where it leads, behind its mark, then the directory
/// above, but for the root, and then every directory in it and nothing else, each
/// behind its mark; a path that leads nowhere prints nothing and fails.
pub proof fn law_listing_prints_the_directories(
    places: Map<Seq<char>, (Seq<char>, Seq<char>)>,
    entries: Map<Seq<char>, Entries>,
    home: Seq<char>,
    stripped: Seq<char>,
    path: Seq<char>,
)
    requires
        home != "~"@,
        !starts_with(home, "~/"@),
    ensures
        ({
            let target = asked_for(path, home, stripped);
            let place = places[target].0;
            let end = Browser::fresh(places, entries, home, stripped).command(
                shell_command(list_remote_dirs_text(), seq![path]),
            );
            let above = if place == "/"@ {
                Seq::<Seq<char>>::empty()
            } else {
                seq!["__DIR__.."@]
            };
            &&& places.dom().contains(target) ==> end.progress is Running && end.printed =~= seq![
                "__PWD__"@ + place,
            ] + above + marked(entries[place], true)
            &&& !places.dom().contains(target) ==> end.progress is Failed && end.printed.len() == 0
        }),
{
    let args = seq![path];
    let text = list_remote_dirs_text();
    law_remote_shell_gets_each_argument_whole(text, args);
    lemma_list_is_trimmed();
    let words = seq![seq!['s', 'h'], seq!['-', 'c'], trim(text), seq!['-', '-']] + args;
    assert(words.skip(4) =~= args);
    lemma_list_lines();
    lemma_line_keys();
    let script = lines(list_from(0));
    let start = Browser::fresh(places, entries, home, stripped);
    lemma_goes_there(start, script, path);
    let target = asked_for(path, home, stripped);
    if places.dom().contains(target) {
        let here = places[target];
        let h13 = Browser { path: target, here, ..start };
        let first = Seq::<Seq<char>>::empty().push("__PWD__"@ + here.0);
        lemma_run_step(h13, script, args, 13);
        let h14 = h13.line("printf '__PWD__%s\\n' \"$PWD\""@, args);
        assert(h14 == (Browser { printed: first, ..h13 }));
        lemma_run_step(h14, script, args, 14);
        let h15 = h14.line("if [ \"$PWD\" != \"/\" ]; then"@, args);
        lemma_run_step(h15, script, args, 15);
        let h16 = h15.line("  printf '__DIR__..\\n'"@, args);
        lemma_run_step(h16, script, args, 16);
        let h17 = h16.line("fi"@, args);
        let second = if here.0 != "/"@ {
            first.push("__DIR__.."@)
        } else {
            first
        };
        assert(h17 == (Browser { printed: second, ..h13 }));
        lemma_run_step(h17, script, args, 17);
        let h18 = h17.line("for entry in * .[!.]* ..?*; do"@, args);
        lemma_run_step(h18, script, args, 18);
        let h19 = h18.line("  [ -d \"$entry\" ] || continue"@, args);
        assert(h19 == (Browser { printed: second, mode: Mode::Loop { only_dirs: true }, ..h13 }));
        lemma_run_step(h19, script, args, 19);
        let h20 = h19.line("  printf '__DIR__%s\\n' \"$entry\""@, args);
        lemma_run_step(h20, script, args, 20);
        let h21 = h20.line("done"@, args);
        assert(script.skip(21) =~= Seq::<Seq<char>>::empty());
        assert(h21.run(script.skip(21), args) == h21);
    }
}

/// Each directory in a listing stands behind its mark, in its order, and what is
/// no directory does not stand there.
pub proof fn law_directories_are_marked(entries: Entries, name: Seq<char>, is_dir: bool)
    ensures
        marked(Seq::empty(), true).len() == 0,
        is_dir ==> marked(entries.push((name, is_dir)), true) == marked(entries, true).push(
            "__DIR__"@ + name,
        ),
        !is_dir ==> marked(entries.push((name, is_dir)), true) == marked(entries, true),
{
    assert(entries.push((name, is_dir)).drop_last() =~= entries);
}

} // verus!
