//! What the remote shell does with the script that writes an uploaded file.
use vstd::prelude::*;

use super::shell::{
    law_remote_shell_gets_each_argument_whole, shell_command, shell_words, write_remote_file_text,
};
use crate::text::{decimal, law_lines_end_at_line_feeds, lemma_trim_end, lemma_trim_start, lines, trim};

verus! {

/// How far a run has come.
pub enum Progress {
    Running,
    Failed,
    /// A command that is not known here.
    Unknown,
}

/// The host while a script runs on it: its directories, its files by directory
/// and name, what stands on standard input, and the script's variables.
pub struct Host {
    pub dirs: Set<Seq<char>>,
    pub files: Map<(Seq<char>, Seq<char>), Seq<u8>>,
    pub input: Seq<u8>,
    pub here: Seq<char>,
    pub dir: Seq<char>,
    pub name: Seq<char>,
    pub tmp_path: Seq<char>,
    pub progress: Progress,
}

/// The name that a file has while it is written by process `pid`.
pub open spec fn temporary(name: Seq<char>, pid: nat) -> Seq<char> {
    ".horizon-upload-"@ + name + "."@ + decimal(pid)
}

impl Host {
    pub open spec fn fresh(
        dirs: Set<Seq<char>>,
        files: Map<(Seq<char>, Seq<char>), Seq<u8>>,
        input: Seq<u8>,
    ) -> Host {
        Host {
            dirs,
            files,
            input,
            here: Seq::empty(),
            dir: Seq::empty(),
            name: Seq::empty(),
            tmp_path: Seq::empty(),
            progress: Progress::Running,
        }
    }

    /// A line that does nothing while nothing fails: strictness, the function
    /// that removes the temporary file, and the traps that call it.
    pub open spec fn idle(line: Seq<char>) -> bool {
        ||| line == "set -eu"@
        ||| line == "cleanup() {"@
        ||| line == "  rm -f -- \"$tmp_path\""@
        ||| line == "}"@
        ||| line == "trap cleanup EXIT HUP INT TERM"@
        ||| line == "trap - EXIT HUP INT TERM"@
    }

    /// One line, with the script's arguments and process.
    pub open spec fn line(self, line: Seq<char>, args: Seq<Seq<char>>, pid: nat) -> Host {
        if !(self.progress is Running) || Host::idle(line) {
            self
        } else if line == "dir=$1"@ {
            Host { dir: args[0], ..self }
        } else if line == "name=$2"@ {
            Host { name: args[1], ..self }
        } else if line == "cd -- \"$dir\" 2>/dev/null || exit 1"@ {
            if self.dirs.contains(self.dir) {
                Host { here: self.dir, ..self }
            } else {
                Host { progress: Progress::Failed, ..self }
            }
        } else if line == "tmp_path=\".horizon-upload-${name}.$$\""@ {
            Host { tmp_path: temporary(self.name, pid), ..self }
        } else if line == "cat > \"$tmp_path\""@ {
            Host {
                files: self.files.insert((self.here, self.tmp_path), self.input),
                input: Seq::empty(),
                ..self
            }
        } else if line == ": > \"$tmp_path\""@ {
            Host { files: self.files.insert((self.here, self.tmp_path), Seq::empty()), ..self }
        } else if line == "mv -f -- \"$tmp_path\" \"$name\""@ {
            if self.files.dom().contains((self.here, self.tmp_path)) {
                Host {
                    files: self.files.remove((self.here, self.tmp_path)).insert(
                        (self.here, self.name),
                        self.files[(self.here, self.tmp_path)],
                    ),
                    ..self
                }
            } else {
                Host { progress: Progress::Failed, ..self }
            }
        } else {
            Host { progress: Progress::Unknown, ..self }
        }
    }

    /// The lines of a script, one after the other.
    pub open spec fn run(self, script: Seq<Seq<char>>, args: Seq<Seq<char>>, pid: nat) -> Host
        decreases script.len(),
    {
        if script.len() == 0 {
            self
        } else {
            self.line(script[0], args, pid).run(script.drop_first(), args, pid)
        }
    }

    /// A command line: `sh -c`, a script, its name and its arguments.
    pub open spec fn command(self, line: Seq<char>, pid: nat) -> Host {
        match shell_words(line) {
            Some(words) => if words.len() >= 4 && words[0] == seq!['s', 'h'] && words[1] == seq![
                '-',
                'c',
            ] {
                self.run(lines(words[2]), words.skip(4), pid)
            } else {
                Host { progress: Progress::Unknown, ..self }
            },
            None => Host { progress: Progress::Unknown, ..self },
        }
    }
}

/// A number that tells the lines of scripts apart.
spec fn line_key(line: Seq<char>) -> int {
    line.len() * 1_000 + line[0] as int
}

proof fn lemma_line_keys()
    ensures
        line_key("set -eu"@) == 7115,
        line_key("dir=$1"@) == 6100,
        line_key("name=$2"@) == 7110,
        line_key("cd -- \"$dir\" 2>/dev/null || exit 1"@) == 34099,
        line_key("tmp_path=\".horizon-upload-${name}.$$\""@) == 37116,
        line_key("cleanup() {"@) == 11099,
        line_key("  rm -f -- \"$tmp_path\""@) == 22032,
        line_key("}"@) == 1125,
        line_key("trap cleanup EXIT HUP INT TERM"@) == 30116,
        line_key("cat > \"$tmp_path\""@) == 17099,
        line_key("mv -f -- \"$tmp_path\" \"$name\""@) == 28109,
        line_key("trap - EXIT HUP INT TERM"@) == 24116,
        line_key(": > \"$tmp_path\""@) == 15058,
{
    reveal_strlit("set -eu");
    reveal_strlit("dir=$1");
    reveal_strlit("name=$2");
    reveal_strlit("cd -- \"$dir\" 2>/dev/null || exit 1");
    reveal_strlit("tmp_path=\".horizon-upload-${name}.$$\"");
    reveal_strlit("cleanup() {");
    reveal_strlit("  rm -f -- \"$tmp_path\"");
    reveal_strlit("}");
    reveal_strlit("trap cleanup EXIT HUP INT TERM");
    reveal_strlit("cat > \"$tmp_path\"");
    reveal_strlit("mv -f -- \"$tmp_path\" \"$name\"");
    reveal_strlit("trap - EXIT HUP INT TERM");
    reveal_strlit(": > \"$tmp_path\"");
}

/// The script from the `from`th character on, past its first line break.
spec fn script_from(from: int) -> Seq<char> {
    write_remote_file_text().subrange(1 + from, 236)
}

proof fn lemma_line_0()
    ensures
        lines(script_from(0)) == seq!["set -eu"@] + lines(script_from(8)),
{
    reveal_strlit("\nset -eu\ndir=$1\nname=$2\ncd -- \"$dir\" 2>/dev/null || exit 1\ntmp_path=\".horizon-upload-${name}.$$\"\ncleanup() {\n  rm -f -- \"$tmp_path\"\n}\ntrap cleanup EXIT HUP INT TERM\ncat > \"$tmp_path\"\nmv -f -- \"$tmp_path\" \"$name\"\ntrap - EXIT HUP INT TERM\n");
    reveal_strlit("set -eu");
    let line = "set -eu"@;
    let spelled = seq!['s', 'e', 't', ' ', '-', 'e', 'u'];
    assert(line =~= spelled);
    let text = write_remote_file_text();
    assert(text.subrange(1, 8) =~= spelled);
    assert(!line.contains('\n'));
    assert(text[8] == '\n');
    assert(script_from(0) =~= text.subrange(1, 8).push('\n') + script_from(8));
    law_lines_end_at_line_feeds(line, script_from(8));
}

proof fn lemma_line_1()
    ensures
        lines(script_from(8)) == seq!["dir=$1"@] + lines(script_from(15)),
{
    reveal_strlit("\nset -eu\ndir=$1\nname=$2\ncd -- \"$dir\" 2>/dev/null || exit 1\ntmp_path=\".horizon-upload-${name}.$$\"\ncleanup() {\n  rm -f -- \"$tmp_path\"\n}\ntrap cleanup EXIT HUP INT TERM\ncat > \"$tmp_path\"\nmv -f -- \"$tmp_path\" \"$name\"\ntrap - EXIT HUP INT TERM\n");
    reveal_strlit("dir=$1");
    let line = "dir=$1"@;
    let spelled = seq!['d', 'i', 'r', '=', '$', '1'];
    assert(line =~= spelled);
    let text = write_remote_file_text();
    assert(text.subrange(9, 15) =~= spelled);
    assert(!line.contains('\n'));
    assert(text[15] == '\n');
    assert(script_from(8) =~= text.subrange(9, 15).push('\n') + script_from(15));
    law_lines_end_at_line_feeds(line, script_from(15));
}

proof fn lemma_line_2()
    ensures
        lines(script_from(15)) == seq!["name=$2"@] + lines(script_from(23)),
{
    reveal_strlit("\nset -eu\ndir=$1\nname=$2\ncd -- \"$dir\" 2>/dev/null || exit 1\ntmp_path=\".horizon-upload-${name}.$$\"\ncleanup() {\n  rm -f -- \"$tmp_path\"\n}\ntrap cleanup EXIT HUP INT TERM\ncat > \"$tmp_path\"\nmv -f -- \"$tmp_path\" \"$name\"\ntrap - EXIT HUP INT TERM\n");
    reveal_strlit("name=$2");
    let line = "name=$2"@;
    let spelled = seq!['n', 'a', 'm', 'e', '=', '$', '2'];
    assert(line =~= spelled);
    let text = write_remote_file_text();
    assert(text.subrange(16, 23) =~= spelled);
    assert(!line.contains('\n'));
    assert(text[23] == '\n');
    assert(script_from(15) =~= text.subrange(16, 23).push('\n') + script_from(23));
    law_lines_end_at_line_feeds(line, script_from(23));
}

proof fn lemma_line_3()
    ensures
        lines(script_from(23)) == seq!["cd -- \"$dir\" 2>/dev/null || exit 1"@] + lines(script_from(58)),
{
    reveal_strlit("\nset -eu\ndir=$1\nname=$2\ncd -- \"$dir\" 2>/dev/null || exit 1\ntmp_path=\".horizon-upload-${name}.$$\"\ncleanup() {\n  rm -f -- \"$tmp_path\"\n}\ntrap cleanup EXIT HUP INT TERM\ncat > \"$tmp_path\"\nmv -f -- \"$tmp_path\" \"$name\"\ntrap - EXIT HUP INT TERM\n");
    reveal_strlit("cd -- \"$dir\" 2>/dev/null || exit 1");
    let line = "cd -- \"$dir\" 2>/dev/null || exit 1"@;
    let spelled = seq!['c', 'd', ' ', '-', '-', ' ', '"', '$', 'd', 'i', 'r', '"', ' ', '2', '>', '/', 'd', 'e', 'v', '/', 'n', 'u', 'l', 'l', ' ', '|', '|', ' ', 'e', 'x', 'i', 't', ' ', '1'];
    assert(line =~= spelled);
    let text = write_remote_file_text();
    assert(text.subrange(24, 58) =~= spelled);
    assert(!line.contains('\n'));
    assert(text[58] == '\n');
    assert(script_from(23) =~= text.subrange(24, 58).push('\n') + script_from(58));
    law_lines_end_at_line_feeds(line, script_from(58));
}

proof fn lemma_line_4()
    ensures
        lines(script_from(58)) == seq!["tmp_path=\".horizon-upload-${name}.$$\""@] + lines(script_from(96)),
{
    reveal_strlit("\nset -eu\ndir=$1\nname=$2\ncd -- \"$dir\" 2>/dev/null || exit 1\ntmp_path=\".horizon-upload-${name}.$$\"\ncleanup() {\n  rm -f -- \"$tmp_path\"\n}\ntrap cleanup EXIT HUP INT TERM\ncat > \"$tmp_path\"\nmv -f -- \"$tmp_path\" \"$name\"\ntrap - EXIT HUP INT TERM\n");
    reveal_strlit("tmp_path=\".horizon-upload-${name}.$$\"");
    let line = "tmp_path=\".horizon-upload-${name}.$$\""@;
    let spelled = seq!['t', 'm', 'p', '_', 'p', 'a', 't', 'h', '=', '"', '.', 'h', 'o', 'r', 'i', 'z', 'o', 'n', '-', 'u', 'p', 'l', 'o', 'a', 'd', '-', '$', '{', 'n', 'a', 'm', 'e', '}', '.', '$', '$', '"'];
    assert(line =~= spelled);
    let text = write_remote_file_text();
    assert(text.subrange(59, 96) =~= spelled);
    assert(!line.contains('\n'));
    assert(text[96] == '\n');
    assert(script_from(58) =~= text.subrange(59, 96).push('\n') + script_from(96));
    law_lines_end_at_line_feeds(line, script_from(96));
}

proof fn lemma_line_5()
    ensures
        lines(script_from(96)) == seq!["cleanup() {"@] + lines(script_from(108)),
{
    reveal_strlit("\nset -eu\ndir=$1\nname=$2\ncd -- \"$dir\" 2>/dev/null || exit 1\ntmp_path=\".horizon-upload-${name}.$$\"\ncleanup() {\n  rm -f -- \"$tmp_path\"\n}\ntrap cleanup EXIT HUP INT TERM\ncat > \"$tmp_path\"\nmv -f -- \"$tmp_path\" \"$name\"\ntrap - EXIT HUP INT TERM\n");
    reveal_strlit("cleanup() {");
    let line = "cleanup() {"@;
    let spelled = seq!['c', 'l', 'e', 'a', 'n', 'u', 'p', '(', ')', ' ', '{'];
    assert(line =~= spelled);
    let text = write_remote_file_text();
    assert(text.subrange(97, 108) =~= spelled);
    assert(!line.contains('\n'));
    assert(text[108] == '\n');
    assert(script_from(96) =~= text.subrange(97, 108).push('\n') + script_from(108));
    law_lines_end_at_line_feeds(line, script_from(108));
}

proof fn lemma_line_6()
    ensures
        lines(script_from(108)) == seq!["  rm -f -- \"$tmp_path\""@] + lines(script_from(131)),
{
    reveal_strlit("\nset -eu\ndir=$1\nname=$2\ncd -- \"$dir\" 2>/dev/null || exit 1\ntmp_path=\".horizon-upload-${name}.$$\"\ncleanup() {\n  rm -f -- \"$tmp_path\"\n}\ntrap cleanup EXIT HUP INT TERM\ncat > \"$tmp_path\"\nmv -f -- \"$tmp_path\" \"$name\"\ntrap - EXIT HUP INT TERM\n");
    reveal_strlit("  rm -f -- \"$tmp_path\"");
    let line = "  rm -f -- \"$tmp_path\""@;
    let spelled = seq![' ', ' ', 'r', 'm', ' ', '-', 'f', ' ', '-', '-', ' ', '"', '$', 't', 'm', 'p', '_', 'p', 'a', 't', 'h', '"'];
    assert(line =~= spelled);
    let text = write_remote_file_text();
    assert(text.subrange(109, 131) =~= spelled);
    assert(!line.contains('\n'));
    assert(text[131] == '\n');
    assert(script_from(108) =~= text.subrange(109, 131).push('\n') + script_from(131));
    law_lines_end_at_line_feeds(line, script_from(131));
}

proof fn lemma_line_7()
    ensures
        lines(script_from(131)) == seq!["}"@] + lines(script_from(133)),
{
    reveal_strlit("\nset -eu\ndir=$1\nname=$2\ncd -- \"$dir\" 2>/dev/null || exit 1\ntmp_path=\".horizon-upload-${name}.$$\"\ncleanup() {\n  rm -f -- \"$tmp_path\"\n}\ntrap cleanup EXIT HUP INT TERM\ncat > \"$tmp_path\"\nmv -f -- \"$tmp_path\" \"$name\"\ntrap - EXIT HUP INT TERM\n");
    reveal_strlit("}");
    let line = "}"@;
    let spelled = seq!['}'];
    assert(line =~= spelled);
    let text = write_remote_file_text();
    assert(text.subrange(132, 133) =~= spelled);
    assert(!line.contains('\n'));
    assert(text[133] == '\n');
    assert(script_from(131) =~= text.subrange(132, 133).push('\n') + script_from(133));
    law_lines_end_at_line_feeds(line, script_from(133));
}

proof fn lemma_line_8()
    ensures
        lines(script_from(133)) == seq!["trap cleanup EXIT HUP INT TERM"@] + lines(script_from(164)),
{
    reveal_strlit("\nset -eu\ndir=$1\nname=$2\ncd -- \"$dir\" 2>/dev/null || exit 1\ntmp_path=\".horizon-upload-${name}.$$\"\ncleanup() {\n  rm -f -- \"$tmp_path\"\n}\ntrap cleanup EXIT HUP INT TERM\ncat > \"$tmp_path\"\nmv -f -- \"$tmp_path\" \"$name\"\ntrap - EXIT HUP INT TERM\n");
    reveal_strlit("trap cleanup EXIT HUP INT TERM");
    let line = "trap cleanup EXIT HUP INT TERM"@;
    let spelled = seq!['t', 'r', 'a', 'p', ' ', 'c', 'l', 'e', 'a', 'n', 'u', 'p', ' ', 'E', 'X', 'I', 'T', ' ', 'H', 'U', 'P', ' ', 'I', 'N', 'T', ' ', 'T', 'E', 'R', 'M'];
    assert(line =~= spelled);
    let text = write_remote_file_text();
    assert(text.subrange(134, 164) =~= spelled);
    assert(!line.contains('\n'));
    assert(text[164] == '\n');
    assert(script_from(133) =~= text.subrange(134, 164).push('\n') + script_from(164));
    law_lines_end_at_line_feeds(line, script_from(164));
}

proof fn lemma_line_9()
    ensures
        lines(script_from(164)) == seq!["cat > \"$tmp_path\""@] + lines(script_from(182)),
{
    reveal_strlit("\nset -eu\ndir=$1\nname=$2\ncd -- \"$dir\" 2>/dev/null || exit 1\ntmp_path=\".horizon-upload-${name}.$$\"\ncleanup() {\n  rm -f -- \"$tmp_path\"\n}\ntrap cleanup EXIT HUP INT TERM\ncat > \"$tmp_path\"\nmv -f -- \"$tmp_path\" \"$name\"\ntrap - EXIT HUP INT TERM\n");
    reveal_strlit("cat > \"$tmp_path\"");
    let line = "cat > \"$tmp_path\""@;
    let spelled = seq!['c', 'a', 't', ' ', '>', ' ', '"', '$', 't', 'm', 'p', '_', 'p', 'a', 't', 'h', '"'];
    assert(line =~= spelled);
    let text = write_remote_file_text();
    assert(text.subrange(165, 182) =~= spelled);
    assert(!line.contains('\n'));
    assert(text[182] == '\n');
    assert(script_from(164) =~= text.subrange(165, 182).push('\n') + script_from(182));
    law_lines_end_at_line_feeds(line, script_from(182));
}

proof fn lemma_line_10()
    ensures
        lines(script_from(182)) == seq!["mv -f -- \"$tmp_path\" \"$name\""@] + lines(script_from(211)),
{
    reveal_strlit("\nset -eu\ndir=$1\nname=$2\ncd -- \"$dir\" 2>/dev/null || exit 1\ntmp_path=\".horizon-upload-${name}.$$\"\ncleanup() {\n  rm -f -- \"$tmp_path\"\n}\ntrap cleanup EXIT HUP INT TERM\ncat > \"$tmp_path\"\nmv -f -- \"$tmp_path\" \"$name\"\ntrap - EXIT HUP INT TERM\n");
    reveal_strlit("mv -f -- \"$tmp_path\" \"$name\"");
    let line = "mv -f -- \"$tmp_path\" \"$name\""@;
    let spelled = seq!['m', 'v', ' ', '-', 'f', ' ', '-', '-', ' ', '"', '$', 't', 'm', 'p', '_', 'p', 'a', 't', 'h', '"', ' ', '"', '$', 'n', 'a', 'm', 'e', '"'];
    assert(line =~= spelled);
    let text = write_remote_file_text();
    assert(text.subrange(183, 211) =~= spelled);
    assert(!line.contains('\n'));
    assert(text[211] == '\n');
    assert(script_from(182) =~= text.subrange(183, 211).push('\n') + script_from(211));
    law_lines_end_at_line_feeds(line, script_from(211));
}

proof fn lemma_line_11()
    ensures
        lines(script_from(211)) == seq!["trap - EXIT HUP INT TERM"@],
{
    reveal_strlit("\nset -eu\ndir=$1\nname=$2\ncd -- \"$dir\" 2>/dev/null || exit 1\ntmp_path=\".horizon-upload-${name}.$$\"\ncleanup() {\n  rm -f -- \"$tmp_path\"\n}\ntrap cleanup EXIT HUP INT TERM\ncat > \"$tmp_path\"\nmv -f -- \"$tmp_path\" \"$name\"\ntrap - EXIT HUP INT TERM\n");
    reveal_strlit("trap - EXIT HUP INT TERM");
    let line = "trap - EXIT HUP INT TERM"@;
    let spelled = seq!['t', 'r', 'a', 'p', ' ', '-', ' ', 'E', 'X', 'I', 'T', ' ', 'H', 'U', 'P', ' ', 'I', 'N', 'T', ' ', 'T', 'E', 'R', 'M'];
    assert(line =~= spelled);
    let text = write_remote_file_text();
    assert(text.subrange(212, 236) =~= spelled);
    assert(!line.contains('\n'));
    assert(script_from(211) =~= text.subrange(212, 236));
    law_lines_end_at_line_feeds(line, Seq::empty());
}

proof fn lemma_script_is_trimmed()
    ensures
        trim(write_remote_file_text()) == script_from(0),
{
    reveal_strlit("\nset -eu\ndir=$1\nname=$2\ncd -- \"$dir\" 2>/dev/null || exit 1\ntmp_path=\".horizon-upload-${name}.$$\"\ncleanup() {\n  rm -f -- \"$tmp_path\"\n}\ntrap cleanup EXIT HUP INT TERM\ncat > \"$tmp_path\"\nmv -f -- \"$tmp_path\" \"$name\"\ntrap - EXIT HUP INT TERM\n");
    let text = write_remote_file_text();
    lemma_trim_start(text, 1);
    let t = text.skip(1);
    lemma_trim_end(t, 235);
    assert(t.take(235) =~= script_from(0));
}

proof fn lemma_run_step(host: Host, line: Seq<char>, rest: Seq<Seq<char>>, args: Seq<Seq<char>>, pid: nat)
    ensures
        host.run(seq![line] + rest, args, pid) == host.line(line, args, pid).run(rest, args, pid),
{
    assert((seq![line] + rest).drop_first() =~= rest);
}

proof fn lemma_stopped(host: Host, script: Seq<Seq<char>>, args: Seq<Seq<char>>, pid: nat)
    requires
        !(host.progress is Running),
    ensures
        host.run(script, args, pid) == host,
    decreases script.len(),
{
    if script.len() > 0 {
        lemma_stopped(host, script.drop_first(), args, pid);
    }
}

/// Uploading writes the file: run on a host that has the directory, the command
/// leaves the named file there with exactly the bytes of standard input, every
/// other file as it was, and no temporary one. Where there is no such directory
/// it fails and touches nothing.
pub proof fn law_uploads_write_standard_input_to_the_named_file(
    dirs: Set<Seq<char>>,
    files: Map<(Seq<char>, Seq<char>), Seq<u8>>,
    input: Seq<u8>,
    dir: Seq<char>,
    name: Seq<char>,
    pid: nat,
)
    ensures
        ({
            let start = Host::fresh(dirs, files, input);
            let end = start.command(
                shell_command(write_remote_file_text(), seq![dir, name]),
                pid,
            );
            if dirs.contains(dir) {
                &&& end.progress is Running
                &&& end.files.dom().contains((dir, name)) && end.files[(dir, name)] == input
                &&& !end.files.dom().contains((dir, temporary(name, pid)))
                &&& forall|at: (Seq<char>, Seq<char>)|
                    at != (dir, name) && at != (dir, temporary(name, pid)) ==> (
                    #[trigger] end.files.dom().contains(at) <==> files.dom().contains(at))
                &&& forall|at: (Seq<char>, Seq<char>)|
                    at != (dir, name) && files.dom().contains(at) && at != (
                        dir,
                        temporary(name, pid),
                    ) ==> #[trigger] end.files[at] == files[at]
            } else {
                end.progress is Failed && end.files == files
            }
        }),
{
    let start = Host::fresh(dirs, files, input);
    let args = seq![dir, name];
    let text = write_remote_file_text();
    law_remote_shell_gets_each_argument_whole(text, args);
    lemma_script_is_trimmed();
    let words = seq![seq!['s', 'h'], seq!['-', 'c'], trim(text), seq!['-', '-']] + args;
    assert(words.skip(4) =~= args);
    lemma_line_keys();
    lemma_temporary_is_another(name, pid);
    let h0 = start;
    lemma_line_0();
    lemma_run_step(h0, "set -eu"@, lines(script_from(8)), args, pid);
    let h1 = h0.line("set -eu"@, args, pid);
    lemma_line_1();
    lemma_run_step(h1, "dir=$1"@, lines(script_from(15)), args, pid);
    let h2 = h1.line("dir=$1"@, args, pid);
    lemma_line_2();
    lemma_run_step(h2, "name=$2"@, lines(script_from(23)), args, pid);
    let h3 = h2.line("name=$2"@, args, pid);
    lemma_line_3();
    lemma_run_step(h3, "cd -- \"$dir\" 2>/dev/null || exit 1"@, lines(script_from(58)), args, pid);
    let h4 = h3.line("cd -- \"$dir\" 2>/dev/null || exit 1"@, args, pid);
    if !dirs.contains(dir) {
        lemma_stopped(h4, lines(script_from(58)), args, pid);
    }
    lemma_line_4();
    lemma_run_step(h4, "tmp_path=\".horizon-upload-${name}.$$\""@, lines(script_from(96)), args, pid);
    let h5 = h4.line("tmp_path=\".horizon-upload-${name}.$$\""@, args, pid);
    assert(dirs.contains(dir) ==> h5.here == dir && h5.name == name && h5.tmp_path == temporary(name, pid) && h5.files == files && h5.input == input && h5.progress is Running);
    lemma_line_5();
    lemma_run_step(h5, "cleanup() {"@, lines(script_from(108)), args, pid);
    let h6 = h5.line("cleanup() {"@, args, pid);
    lemma_line_6();
    lemma_run_step(h6, "  rm -f -- \"$tmp_path\""@, lines(script_from(131)), args, pid);
    let h7 = h6.line("  rm -f -- \"$tmp_path\""@, args, pid);
    lemma_line_7();
    lemma_run_step(h7, "}"@, lines(script_from(133)), args, pid);
    let h8 = h7.line("}"@, args, pid);
    lemma_line_8();
    lemma_run_step(h8, "trap cleanup EXIT HUP INT TERM"@, lines(script_from(164)), args, pid);
    let h9 = h8.line("trap cleanup EXIT HUP INT TERM"@, args, pid);
    lemma_line_9();
    lemma_run_step(h9, "cat > \"$tmp_path\""@, lines(script_from(182)), args, pid);
    let h10 = h9.line("cat > \"$tmp_path\""@, args, pid);
    assert(dirs.contains(dir) ==> h10.files == files.insert((dir, temporary(name, pid)), input));
    lemma_line_10();
    lemma_run_step(h10, "mv -f -- \"$tmp_path\" \"$name\""@, lines(script_from(211)), args, pid);
    let h11 = h10.line("mv -f -- \"$tmp_path\" \"$name\""@, args, pid);
    lemma_line_11();
    assert(seq!["trap - EXIT HUP INT TERM"@] + Seq::<Seq<char>>::empty() =~= seq!["trap - EXIT HUP INT TERM"@]);
    lemma_run_step(h11, "trap - EXIT HUP INT TERM"@, Seq::empty(), args, pid);
    let h12 = h11.line("trap - EXIT HUP INT TERM"@, args, pid);
}

proof fn lemma_temporary_is_another(name: Seq<char>, pid: nat)
    ensures
        temporary(name, pid) != name,
{
    reveal_strlit(".horizon-upload-");
    assert(temporary(name, pid).len() > name.len());
}

} // verus!
