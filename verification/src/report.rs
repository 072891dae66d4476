//! The managed-process definition, run outcomes, and the run report:
//! rendering a completed run to its persisted text, reading that text back,
//! and naming the log files of a run.

use vstd::prelude::*;
use crate::args::{ArgEntry, ArgError, build_args, entries_ok, entries_tokens};
use crate::mode::Mode;
use crate::text::{
    after_last_slash, int_digits, push_basename, push_int, push_str, chars_to_string, str_chars,
};

verus! {

/// The immutable definition of one managed process: its executable path and
/// its constructed argument tokens.
#[derive(Debug, PartialEq, Eq)]
pub struct Process {
    pub executable: String,
    pub args: Vec<String>,
}

impl Process {
    /// Build a definition from the configured argument values; fails exactly
    /// when one of them has no token form.
    pub fn new(executable: String, entries: &Vec<ArgEntry>) -> (r: Result<Process, ArgError>)
        ensures
            r is Ok <==> entries_ok(entries@),
            r matches Ok(p) ==> p.executable@ == executable@ && p.args.deep_view()
                == entries_tokens(entries@),
    {
        match build_args(entries) {
            Ok(args) => Ok(Process { executable, args }),
            Err(e) => Err(e),
        }
    }

    /// The executable path.
    pub fn executable(&self) -> (r: &String)
        ensures
            r@ == self.executable@,
    {
        &self.executable
    }

    /// The constructed argument tokens, in order.
    pub fn args(&self) -> (r: &Vec<String>)
        ensures
            r.deep_view() == self.args.deep_view(),
    {
        &self.args
    }

    /// A copy of the definition, for inclusion in a run record.
    pub fn snapshot(&self) -> (r: Process)
        ensures
            r.executable@ == self.executable@,
            r.args.deep_view() == self.args.deep_view(),
    {
        let mut args: Vec<String> = Vec::new();
        let mut i: usize = 0;
        while i < self.args.len()
            invariant
                i <= self.args.len(),
                args@ == self.args@.take(i as int),
            decreases self.args.len() - i,
        {
            args.push(self.args[i].clone());
            i += 1;
            assert(args@ =~= self.args@.take(i as int));
        }
        proof {
            assert(self.args@.take(self.args@.len() as int) =~= self.args@);
            assert(args.deep_view() =~~= self.args.deep_view());
        }
        Process { executable: self.executable.clone(), args }
    }
}

/// The terminal result of one run attempt.
#[derive(Clone, Copy, Debug, PartialEq, Eq)]
pub enum Outcome {
    Completed { success: bool, exit_code: Option<i32> },
    Killed,
}

/// The persisted summary of one run attempt: the definition snapshot, the
/// outcome, the mode observed at completion, and the run's timestamp.
#[derive(Debug)]
pub struct RunRecord {
    pub proc: Process,
    pub outcome: Outcome,
    pub mode: Mode,
    pub stamp: String,
}

/// One escaped character of a quoted string.
pub open spec fn esc_char(c: char) -> Seq<char> {
    if c == '\\' {
        seq!['\\', '\\']
    } else if c == '"' {
        seq!['\\', '"']
    } else if c == '\n' {
        seq!['\\', 'n']
    } else if c == '\r' {
        seq!['\\', 'r']
    } else if c == '\t' {
        seq!['\\', 't']
    } else {
        seq![c]
    }
}

/// The escaped body of a quoted string.
pub open spec fn escape(s: Seq<char>) -> Seq<char>
    decreases s.len(),
{
    if s.len() == 0 {
        Seq::<char>::empty()
    } else {
        esc_char(s[0]) + escape(s.drop_first())
    }
}

proof fn lemma_escape_snoc(s: Seq<char>, c: char)
    ensures
        escape(s.push(c)) == escape(s) + esc_char(c),
    decreases s.len(),
{
    if s.len() == 0 {
        assert(s.push(c).drop_first() =~= Seq::<char>::empty());
        assert(s.push(c)[0] == c);
        assert(escape(Seq::<char>::empty()) == Seq::<char>::empty());
        assert(escape(s.push(c)) == esc_char(c) + escape(Seq::<char>::empty()));
        assert(escape(s.push(c)) =~= escape(s) + esc_char(c));
    } else {
        lemma_escape_snoc(s.drop_first(), c);
        assert(s.push(c).drop_first() =~= s.drop_first().push(c));
        assert(s.push(c)[0] == s[0]);
        assert(escape(s.push(c)) == esc_char(s[0]) + (escape(s.drop_first()) + esc_char(c)));
        assert(escape(s.push(c)) =~= escape(s) + esc_char(c));
    }
}

/// Append the escaped body of `s`.
fn push_escaped(out: &mut Vec<char>, s: &String)
    ensures
        final(out)@ == old(out)@ + escape(s@),
{
    let cs = str_chars(s.as_str());
    let mut i: usize = 0;
    while i < cs.len()
        invariant
            i <= cs.len(),
            cs@ == s@,
            out@ == old(out)@ + escape(s@.take(i as int)),
        decreases cs.len() - i,
    {
        let c = cs[i];
        if c == '\\' {
            out.push('\\');
            out.push('\\');
        } else if c == '"' {
            out.push('\\');
            out.push('"');
        } else if c == '\n' {
            out.push('\\');
            out.push('n');
        } else if c == '\r' {
            out.push('\\');
            out.push('r');
        } else if c == '\t' {
            out.push('\\');
            out.push('t');
        } else {
            out.push(c);
        }
        i += 1;
        proof {
            lemma_escape_snoc(s@.take(i - 1), s@[i - 1]);
            assert(s@.take(i as int) =~= s@.take(i - 1).push(s@[i - 1]));
            assert(out@ =~= old(out)@ + escape(s@.take(i as int)));
        }
    }
    proof {
        assert(s@.take(s@.len() as int) =~= s@);
    }
}

/// A quoted, escaped string.
pub open spec fn quoted(s: Seq<char>) -> Seq<char> {
    seq!['"'] + escape(s) + seq!['"']
}

/// The head of the report's first line, up to and including the opening quote
/// of the executable path.
pub open spec fn exe_prefix() -> Seq<char> {
    seq!['e', 'x', 'e', 'c', 'u', 't', 'a', 'b', 'l', 'e', ' ', '=', ' ', '"']
}

/// What separates the executable's closing quote from the argument list: the
/// head of the report's second line, up to and including the opening bracket.
pub open spec fn args_prefix() -> Seq<char> {
    seq!['\n', 'a', 'r', 'g', 's', ' ', '=', ' ', '[']
}

/// The quoted argument tokens, each followed by a comma and a space.
pub open spec fn args_items(args: Seq<Seq<char>>) -> Seq<char>
    decreases args.len(),
{
    if args.len() == 0 {
        Seq::<char>::empty()
    } else {
        quoted(args[0]) + seq![',', ' '] + args_items(args.drop_first())
    }
}

proof fn lemma_args_items_snoc(s: Seq<Seq<char>>, a: Seq<char>)
    ensures
        args_items(s.push(a)) == args_items(s) + quoted(a) + seq![',', ' '],
    decreases s.len(),
{
    if s.len() == 0 {
        assert(s.push(a).drop_first() =~= Seq::<Seq<char>>::empty());
        assert(s.push(a)[0] == a);
        assert(args_items(s.push(a).drop_first()) == Seq::<char>::empty());
        assert(args_items(s.push(a)) =~= args_items(s) + quoted(a) + seq![',', ' ']);
    } else {
        lemma_args_items_snoc(s.drop_first(), a);
        assert(s.push(a).drop_first() =~= s.drop_first().push(a));
        assert(s.push(a)[0] == s[0]);
        assert(args_items(s.push(a)) == quoted(s[0]) + seq![',', ' '] + (args_items(
            s.drop_first(),
        ) + quoted(a) + seq![',', ' ']));
        assert(args_items(s.push(a)) =~= args_items(s) + quoted(a) + seq![',', ' ']);
    }
}

/// The status word of an outcome.
pub open spec fn status_text(o: Outcome) -> Seq<char> {
    match o {
        Outcome::Completed { success, .. } => if success {
            "success"@
        } else {
            "failure"@
        },
        Outcome::Killed => "killed"@,
    }
}

/// The exit-code line, present exactly when a completed run reported a code.
pub open spec fn code_lines(o: Outcome) -> Seq<char> {
    match o {
        Outcome::Completed { exit_code: Some(c), .. } => "\nexit-code = "@ + int_digits(c as int),
        _ => Seq::<char>::empty(),
    }
}

/// The mode's name in the report.
pub open spec fn mode_text(m: Mode) -> Seq<char> {
    match m {
        Mode::Once => "Once"@,
        Mode::Repeat => "Repeat"@,
        Mode::Stop => "Stop"@,
    }
}

/// The status section that follows the definition.
pub open spec fn status_block(o: Outcome, m: Mode) -> Seq<char> {
    "\n\n[status]\nstatus = "@ + status_text(o) + code_lines(o) + "\nmode = "@ + mode_text(m)
        + "\n---\n"@
}

/// The whole persisted report of one run.
pub open spec fn spec_render_report(
    exe: Seq<char>,
    args: Seq<Seq<char>>,
    o: Outcome,
    m: Mode,
) -> Seq<char> {
    exe_prefix() + escape(exe) + seq!['"'] + args_prefix() + args_items(args) + seq![']']
        + status_block(o, m)
}

/// Append the quoted tokens, each followed by a comma and a space.
fn push_args_items(out: &mut Vec<char>, args: &Vec<String>)
    ensures
        final(out)@ == old(out)@ + args_items(args.deep_view()),
{
    let ghost av = args.deep_view();
    let mut i: usize = 0;
    while i < args.len()
        invariant
            i <= args.len(),
            av == args.deep_view(),
            av.len() == args@.len(),
            out@ == old(out)@ + args_items(av.take(i as int)),
        decreases args.len() - i,
    {
        proof {
            assert(av[i as int] == args@[i as int]@);
        }
        out.push('"');
        push_escaped(out, &args[i]);
        out.push('"');
        out.push(',');
        out.push(' ');
        i += 1;
        proof {
            lemma_args_items_snoc(av.take(i - 1), av[i - 1]);
            assert(av.take(i as int) =~~= av.take(i - 1).push(av[i - 1]));
            assert(out@ =~= old(out)@ + args_items(av.take(i as int)));
        }
    }
    proof {
        assert(av.take(av.len() as int) =~~= av);
    }
}

/// Render the persisted report of one run.
pub fn render_report(rec: &RunRecord) -> (r: String)
    ensures
        r@ == spec_render_report(rec.proc.executable@, rec.proc.args.deep_view(), rec.outcome,
            rec.mode),
{
    let mut v: Vec<char> = Vec::new();
    push_str(&mut v, "executable = \"");
    proof {
        reveal_strlit("executable = \"");
        assert("executable = \""@ =~= exe_prefix());
    }
    push_escaped(&mut v, &rec.proc.executable);
    v.push('"');
    push_str(&mut v, "\nargs = [");
    proof {
        reveal_strlit("\nargs = [");
        assert("\nargs = ["@ =~= args_prefix());
    }
    push_args_items(&mut v, &rec.proc.args);
    v.push(']');
    push_str(&mut v, "\n\n[status]\nstatus = ");
    match &rec.outcome {
        Outcome::Completed { success, exit_code } => {
            if *success {
                push_str(&mut v, "success");
            } else {
                push_str(&mut v, "failure");
            }
            match exit_code {
                Some(c) => {
                    push_str(&mut v, "\nexit-code = ");
                    push_int(&mut v, *c as i64);
                },
                None => {},
            }
        },
        Outcome::Killed => {
            push_str(&mut v, "killed");
        },
    }
    push_str(&mut v, "\nmode = ");
    match rec.mode {
        Mode::Once => push_str(&mut v, "Once"),
        Mode::Repeat => push_str(&mut v, "Repeat"),
        Mode::Stop => push_str(&mut v, "Stop"),
    }
    push_str(&mut v, "\n---\n");
    proof {
        assert(v@ =~= spec_render_report(rec.proc.executable@, rec.proc.args.deep_view(),
            rec.outcome, rec.mode));
    }
    chars_to_string(&v)
}

/// The character named by an escape code.
pub open spec fn un_esc_code(c: char) -> Option<char> {
    if c == '\\' {
        Some('\\')
    } else if c == '"' {
        Some('"')
    } else if c == 'n' {
        Some('\n')
    } else if c == 'r' {
        Some('\r')
    } else if c == 't' {
        Some('\t')
    } else {
        None
    }
}

/// Read a quoted string's body up to its closing quote: the unescaped content
/// and what follows the quote, or `None` on an unterminated or ill-escaped
/// body.
pub open spec fn unesc(s: Seq<char>) -> Option<(Seq<char>, Seq<char>)>
    decreases s.len(),
{
    if s.len() == 0 {
        None
    } else if s[0] == '"' {
        Some((Seq::<char>::empty(), s.drop_first()))
    } else if s[0] == '\\' {
        if s.len() == 1 {
            None
        } else {
            match un_esc_code(s[1]) {
                Some(c) => match unesc(s.skip(2)) {
                    Some(p) => Some((seq![c] + p.0, p.1)),
                    None => None,
                },
                None => None,
            }
        }
    } else {
        match unesc(s.drop_first()) {
            Some(p) => Some((seq![s[0]] + p.0, p.1)),
            None => None,
        }
    }
}

proof fn lemma_unesc_shrinks(s: Seq<char>)
    ensures
        unesc(s) matches Some(p) ==> p.1.len() < s.len(),
    decreases s.len(),
{
    if s.len() == 0 {
    } else if s[0] == '"' {
    } else if s[0] == '\\' {
        if s.len() > 1 {
            lemma_unesc_shrinks(s.skip(2));
        }
    } else {
        lemma_unesc_shrinks(s.drop_first());
    }
}

/// Reading back a quoted body yields exactly what was escaped into it.
proof fn lemma_unesc_escape(s: Seq<char>, rest: Seq<char>)
    ensures
        unesc(escape(s) + seq!['"'] + rest) == Some((s, rest)),
    decreases s.len(),
{
    let inp = escape(s) + seq!['"'] + rest;
    if s.len() == 0 {
        assert(escape(s) == Seq::<char>::empty());
        assert(inp[0] == '"');
        assert(inp.drop_first() =~= rest);
        assert(s =~= Seq::<char>::empty());
        assert(unesc(inp) == Some((s, rest)));
    } else {
        lemma_unesc_escape(s.drop_first(), rest);
        let c = s[0];
        let tail = escape(s.drop_first()) + seq!['"'] + rest;
        assert(escape(s) == esc_char(c) + escape(s.drop_first()));
        if c == '\\' || c == '"' || c == '\n' || c == '\r' || c == '\t' {
            assert(esc_char(c).len() == 2 && esc_char(c)[0] == '\\');
            assert(inp[0] == '\\');
            assert(inp.len() >= 2);
            assert(inp[1] == esc_char(c)[1]);
            assert(un_esc_code(esc_char(c)[1]) == Some(c));
            assert(inp.skip(2) =~= tail);
            assert(seq![c] + s.drop_first() =~= s);
            assert(unesc(inp) == Some((s, rest)));
        } else {
            assert(esc_char(c) == seq![c]);
            assert(inp[0] == c && c != '"' && c != '\\');
            assert(inp.drop_first() =~= tail);
            assert(seq![c] + s.drop_first() =~= s);
            assert(unesc(inp) == Some((s, rest)));
        }
    }
}

/// Read the bracketed argument list from just after its opening bracket:
/// the items and what follows the closing bracket.
pub open spec fn parse_items(s: Seq<char>) -> Option<(Seq<Seq<char>>, Seq<char>)>
    decreases s.len(),
    via parse_items_dec
{
    if s.len() == 0 {
        None
    } else if s[0] == ']' {
        Some((Seq::<Seq<char>>::empty(), s.drop_first()))
    } else if s[0] != '"' {
        None
    } else {
        match unesc(s.drop_first()) {
            None => None,
            Some(p) => {
                if p.1.len() >= 2 && p.1[0] == ',' && p.1[1] == ' ' {
                    match parse_items(p.1.skip(2)) {
                        Some(q) => Some((seq![p.0] + q.0, q.1)),
                        None => None,
                    }
                } else {
                    None
                }
            },
        }
    }
}

#[via_fn]
proof fn parse_items_dec(s: Seq<char>) {
    if s.len() > 0 && s[0] != ']' && s[0] == '"' {
        lemma_unesc_shrinks(s.drop_first());
    }
}

/// Reading back a rendered argument list yields exactly the rendered tokens.
proof fn lemma_parse_items_render(args: Seq<Seq<char>>, rest: Seq<char>)
    ensures
        parse_items(args_items(args) + seq![']'] + rest) == Some((args, rest)),
    decreases args.len(),
{
    let inp = args_items(args) + seq![']'] + rest;
    if args.len() == 0 {
        assert(args_items(args) == Seq::<char>::empty());
        assert(inp[0] == ']');
        assert(inp.drop_first() =~= rest);
        assert(args =~= Seq::<Seq<char>>::empty());
        assert(parse_items(inp) == Some((args, rest)));
    } else {
        lemma_parse_items_render(args.drop_first(), rest);
        let tail = seq![',', ' '] + args_items(args.drop_first()) + seq![']'] + rest;
        assert(args_items(args) == quoted(args[0]) + seq![',', ' '] + args_items(
            args.drop_first(),
        ));
        assert(inp[0] == '"');
        assert(inp.drop_first() =~= escape(args[0]) + seq!['"'] + tail);
        lemma_unesc_escape(args[0], tail);
        assert(tail.len() >= 2 && tail[0] == ',' && tail[1] == ' ');
        assert(tail.skip(2) =~= args_items(args.drop_first()) + seq![']'] + rest);
        assert(seq![args[0]] + args.drop_first() =~= args);
        assert(parse_items(inp) == Some((args, rest)));
    }
}

/// Read a persisted report back: the executable path and the argument tokens
/// it records. The status section is not needed and is left unread.
pub open spec fn spec_parse_report(s: Seq<char>) -> Option<(Seq<char>, Seq<Seq<char>>)> {
    if s.len() < exe_prefix().len() || s.take(exe_prefix().len() as int) != exe_prefix() {
        None
    } else {
        match unesc(s.skip(exe_prefix().len() as int)) {
            None => None,
            Some(p) => {
                if p.1.len() < args_prefix().len() || p.1.take(args_prefix().len() as int)
                    != args_prefix() {
                    None
                } else {
                    match parse_items(p.1.skip(args_prefix().len() as int)) {
                        Some(q) => Some((p.0, q.0)),
                        None => None,
                    }
                }
            },
        }
    }
}

/// A persisted report, re-parsed, yields the originating definition's
/// executable path and argument tokens exactly, whatever the outcome and
/// mode it records.
pub proof fn lemma_report_round_trip(exe: Seq<char>, args: Seq<Seq<char>>, o: Outcome, m: Mode)
    ensures
        spec_parse_report(spec_render_report(exe, args, o, m)) == Some((exe, args)),
{
    let s = spec_render_report(exe, args, o, m);
    let after_exe = args_prefix() + args_items(args) + seq![']'] + status_block(o, m);
    assert(s.take(exe_prefix().len() as int) =~= exe_prefix());
    assert(s.skip(exe_prefix().len() as int) =~= escape(exe) + seq!['"'] + after_exe);
    lemma_unesc_escape(exe, after_exe);
    assert(after_exe.take(args_prefix().len() as int) =~= args_prefix());
    assert(after_exe.skip(args_prefix().len() as int) =~= args_items(args) + seq![']']
        + status_block(o, m));
    lemma_parse_items_render(args, status_block(o, m));
    assert(spec_parse_report(s) == Some((exe, args)));
}

fn parse_quoted(chars: &Vec<char>, i: usize) -> (r: Option<(Vec<char>, usize)>)
    requires
        i <= chars.len(),
    ensures
        r matches Some(p) ==> p.1 <= chars.len() && unesc(chars@.skip(i as int)) == Some(
            (p.0@, chars@.skip(p.1 as int)),
        ),
        r is None ==> unesc(chars@.skip(i as int)) is None,
    decreases chars.len() - i,
{
    let ghost s = chars@.skip(i as int);
    if i >= chars.len() {
        proof {
            assert(s =~= Seq::<char>::empty());
        }
        return None;
    }
    let c = chars[i];
    proof {
        assert(s[0] == c);
    }
    if c == '"' {
        proof {
            assert(s.drop_first() =~= chars@.skip(i + 1));
        }
        let empty: Vec<char> = Vec::new();
        proof {
            assert(empty@ =~= Seq::<char>::empty());
        }
        return Some((empty, i + 1));
    }
    if c == '\\' {
        if i + 1 >= chars.len() {
            proof {
                assert(s.len() == 1);
            }
            return None;
        }
        let e = chars[i + 1];
        proof {
            assert(s[1] == e);
        }
        let dec: Option<char> = if e == '\\' {
            Some('\\')
        } else if e == '"' {
            Some('"')
        } else if e == 'n' {
            Some('\n')
        } else if e == 'r' {
            Some('\r')
        } else if e == 't' {
            Some('\t')
        } else {
            None
        };
        proof {
            assert(dec == un_esc_code(e));
        }
        match dec {
            None => {
                return None;
            },
            Some(d) => {
                proof {
                    assert(s.skip(2) =~= chars@.skip(i + 2));
                }
                match parse_quoted(chars, i + 2) {
                    None => {
                        return None;
                    },
                    Some((content, j)) => {
                        let mut out: Vec<char> = Vec::new();
                        out.push(d);
                        let mut tail = content;
                        let ghost tv = tail@;
                        out.append(&mut tail);
                        proof {
                            assert(out@ =~= seq![d] + tv);
                        }
                        return Some((out, j));
                    },
                }
            },
        }
    }
    proof {
        assert(s.drop_first() =~= chars@.skip(i + 1));
    }
    match parse_quoted(chars, i + 1) {
        None => None,
        Some((content, j)) => {
            let mut out: Vec<char> = Vec::new();
            out.push(c);
            let mut tail = content;
            let ghost tv = tail@;
            out.append(&mut tail);
            proof {
                assert(out@ =~= seq![c] + tv);
            }
            Some((out, j))
        },
    }
}

fn parse_items_exec(chars: &Vec<char>, i: usize) -> (r: Option<(Vec<String>, usize)>)
    requires
        i <= chars.len(),
    ensures
        r matches Some(p) ==> p.1 <= chars.len() && parse_items(chars@.skip(i as int)) == Some(
            (p.0.deep_view(), chars@.skip(p.1 as int)),
        ),
        r is None ==> parse_items(chars@.skip(i as int)) is None,
    decreases chars.len() - i,
{
    let ghost s = chars@.skip(i as int);
    if i >= chars.len() {
        proof {
            assert(s =~= Seq::<char>::empty());
        }
        return None;
    }
    let c = chars[i];
    proof {
        assert(s[0] == c);
    }
    if c == ']' {
        proof {
            assert(s.drop_first() =~= chars@.skip(i + 1));
        }
        let empty: Vec<String> = Vec::new();
        proof {
            assert(empty.deep_view() =~~= Seq::<Seq<char>>::empty());
        }
        return Some((empty, i + 1));
    }
    if c != '"' {
        return None;
    }
    proof {
        assert(s.drop_first() =~= chars@.skip(i + 1));
    }
    match parse_quoted(chars, i + 1) {
        None => None,
        Some((item, j)) => {
            proof {
                assert(chars@.skip(j as int).len() >= 2 <==> j + 2 <= chars.len());
            }
            if chars.len() >= 2 && j <= chars.len() - 2 && chars[j] == ',' && chars[j + 1]
                == ' ' {
                proof {
                    assert(chars@.skip(j as int)[0] == chars@[j as int]);
                    assert(chars@.skip(j as int)[1] == chars@[j + 1]);
                    assert(chars@.skip(j as int).skip(2) =~= chars@.skip(j + 2));
                    lemma_unesc_shrinks(chars@.skip(i + 1));
                }
                match parse_items_exec(chars, j + 2) {
                    None => None,
                    Some((items, k)) => {
                        let ghost dv = items.deep_view();
                        let mut items2 = items;
                        let head = chars_to_string(&item);
                        items2.insert(0, head);
                        proof {
                            assert(items2.deep_view() =~~= seq![item@] + dv);
                        }
                        Some((items2, k))
                    },
                }
            } else {
                proof {
                    if chars.len() >= 2 && j <= chars.len() - 2 {
                        assert(chars@.skip(j as int)[0] == chars@[j as int]);
                        assert(chars@.skip(j as int)[1] == chars@[j + 1]);
                    }
                }
                None
            }
        },
    }
}

fn has_prefix_at(chars: &Vec<char>, at: usize, pat: &Vec<char>) -> (r: bool)
    requires
        at <= chars.len(),
    ensures
        r == (chars@.skip(at as int).len() >= pat@.len() && chars@.skip(at as int).take(
            pat@.len() as int,
        ) == pat@),
{
    if chars.len() - at < pat.len() {
        return false;
    }
    let mut k: usize = 0;
    while k < pat.len()
        invariant
            k <= pat.len(),
            at + pat.len() <= chars.len(),
            forall|q: int| 0 <= q < k ==> chars@[at + q] == pat@[q],
        decreases pat.len() - k,
    {
        if chars[at + k] != pat[k] {
            proof {
                let t = chars@.skip(at as int).take(pat@.len() as int);
                assert(t[k as int] == chars@[at + k]);
                assert(t[k as int] != pat@[k as int]);
            }
            return false;
        }
        k += 1;
    }
    proof {
        assert(chars@.skip(at as int).take(pat@.len() as int) =~= pat@);
    }
    true
}

/// Read a persisted report back: its executable path and argument tokens.
/// `None` exactly on text that no run report renders to.
pub fn parse_report(s: &str) -> (r: Option<(String, Vec<String>)>)
    ensures
        r matches Some(p) ==> spec_parse_report(s@) == Some((p.0@, p.1.deep_view())),
        r is None ==> spec_parse_report(s@) is None,
{
    let chars = str_chars(s);
    let pre = str_chars("executable = \"");
    proof {
        reveal_strlit("executable = \"");
        assert(pre@ =~= exe_prefix());
        assert(chars@.skip(0) =~= chars@);
    }
    if !has_prefix_at(&chars, 0, &pre) {
        return None;
    }
    match parse_quoted(&chars, pre.len()) {
        None => None,
        Some((exe, j)) => {
            let pre2 = str_chars("\nargs = [");
            proof {
                reveal_strlit("\nargs = [");
                assert(pre2@ =~= args_prefix());
            }
            if !has_prefix_at(&chars, j, &pre2) {
                return None;
            }
            proof {
                assert(chars@.skip(j as int).skip(pre2@.len() as int) =~= chars@.skip(
                    j + pre2@.len(),
                ));
            }
            match parse_items_exec(&chars, j + pre2.len()) {
                None => None,
                Some((items, _)) => Some((chars_to_string(&exe), items)),
            }
        },
    }
}

/// The name of one log file of a run:
/// the executable's basename, the file's kind, and the run's timestamp,
/// joined by `-`, with the `.log` ending.
pub open spec fn spec_file_name(exe: Seq<char>, kind: Seq<char>, stamp: Seq<char>) -> Seq<char> {
    after_last_slash(exe) + seq!['-'] + kind + seq!['-'] + stamp + ".log"@
}

/// Build one log file name from the executable path, the file's kind
/// (`stdout`, `stderr` or `status`) and the run's timestamp.
pub fn file_name(exe: &str, kind: &str, stamp: &str) -> (r: String)
    ensures
        r@ == spec_file_name(exe@, kind@, stamp@),
{
    let mut v: Vec<char> = Vec::new();
    push_basename(&mut v, exe);
    v.push('-');
    push_str(&mut v, kind);
    v.push('-');
    push_str(&mut v, stamp);
    push_str(&mut v, ".log");
    proof {
        assert(v@ =~= spec_file_name(exe@, kind@, stamp@));
    }
    chars_to_string(&v)
}

} // verus!
