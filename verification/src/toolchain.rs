//! The logic of the command-line tools around the compiler: the source
//! formatter, the files of a new project, and the choice of C compiler.

use vstd::prelude::*;
use vstd::string::*;
use crate::debugger::text::{
    split_lines, lines_of, views, is_white, is_white_char, line_break, lemma_line_break_bounds,
};
use crate::text::str_eq;

verus! {

broadcast use vstd::string::group_string_axioms;

/// `s` without its leading white space.
pub open spec fn trim_start(s: Seq<char>) -> Seq<char>
    decreases s.len(),
{
    if s.len() > 0 && is_white(s[0]) {
        trim_start(s.drop_first())
    } else {
        s
    }
}

/// `s` without its trailing white space.
pub open spec fn trim_end(s: Seq<char>) -> Seq<char>
    decreases s.len(),
{
    if s.len() > 0 && is_white(s.last()) {
        trim_end(s.drop_last())
    } else {
        s
    }
}

/// `s` without white space at either end (std's `str::trim`).
pub open spec fn trimmed(s: Seq<char>) -> Seq<char> {
    trim_end(trim_start(s))
}

/// Whether `s` starts with `p`.
pub open spec fn begins_with(s: Seq<char>, p: Seq<char>) -> bool {
    p.len() <= s.len() && s.subrange(0, p.len() as int) == p
}

/// Whether `s` ends with `p`.
pub open spec fn finishes_with(s: Seq<char>, p: Seq<char>) -> bool {
    p.len() <= s.len() && s.subrange(s.len() - p.len(), s.len() as int) == p
}

/// Whether a trimmed line closes a block: `end`, alone or followed by a blank.
pub open spec fn closes_block(t: Seq<char>) -> bool {
    t == "end"@ || begins_with(t, "end "@)
}

/// One indent level less, never below none.
pub open spec fn dedent(level: nat) -> nat {
    if level > 0 {
        (level - 1) as nat
    } else {
        0
    }
}

/// Four blanks for each indent level.
pub open spec fn indent_text(level: nat) -> Seq<char>
    decreases level,
{
    if level == 0 {
        Seq::empty()
    } else {
        indent_text((level - 1) as nat) + "    "@
    }
}

/// The indent level of a non-blank trimmed line `t` after lines that left
/// the level at `level`: one level out for a line that closes a block, and
/// one more for a line that starts with `else`.
pub open spec fn placed(level: nat, t: Seq<char>) -> nat {
    let l1 = if closes_block(t) {
        dedent(level)
    } else {
        level
    };
    if begins_with(t, "else"@) {
        dedent(l1)
    } else {
        l1
    }
}

/// The formatted text of the first `i` lines of `ls`, and the indent level
/// after them. A blank line stays blank; a line that closes a block, or
/// starts with `else`, goes one level out first; a line that ends with
/// `=>` opens a block and takes the lines after it one level in.
pub open spec fn format_prefix(ls: Seq<Seq<char>>, i: int) -> (Seq<char>, nat)
    decreases i,
{
    if i <= 0 {
        (Seq::empty(), 0)
    } else {
        let (out, level) = format_prefix(ls, i - 1);
        let t = trimmed(ls[i - 1]);
        if t.len() == 0 {
            (out.push('\n'), level)
        } else {
            let l = placed(level, t);
            (
                out + indent_text(l) + t + "\n"@,
                if finishes_with(t, "=>"@) {
                    l + 1
                } else {
                    l
                },
            )
        }
    }
}

/// `s` with the line breaks that end it cut down to one.
pub open spec fn single_final_break(s: Seq<char>) -> Seq<char>
    decreases s.len(),
{
    if s.len() >= 2 && s.last() == '\n' && s[s.len() - 2] == '\n' {
        single_final_break(s.drop_last())
    } else {
        s
    }
}

/// The formatted text of a GalaxC source.
pub open spec fn formatted(source: Seq<char>) -> Seq<char> {
    let ls = lines_of(source);
    single_final_break(format_prefix(ls, ls.len() as int).0)
}

/// `s` without white space at either end.
pub fn trim_text(s: &str) -> (r: String)
    ensures
        r@ == trimmed(s@),
{
    let n = s.unicode_len();
    let mut a: usize = 0;
    assert(s@.subrange(0, n as int) =~= s@);
    while a < n && is_white_char(s.get_char(a))
        invariant
            n == s@.len(),
            a <= n,
            trim_start(s@.subrange(a as int, n as int)) == trim_start(s@),
        decreases n - a,
    {
        assert(s@.subrange(a as int, n as int).drop_first() =~= s@.subrange(a + 1, n as int));
        a = a + 1;
    }
    assert(trim_start(s@) == s@.subrange(a as int, n as int));
    let mut b: usize = n;
    while b > a && is_white_char(s.get_char(b - 1))
        invariant
            n == s@.len(),
            a <= b <= n,
            trim_end(s@.subrange(a as int, b as int)) == trimmed(s@),
        decreases b - a,
    {
        assert(s@.subrange(a as int, b as int).drop_last() =~= s@.subrange(a as int, b - 1));
        b = b - 1;
    }
    String::from_str(s.substring_char(a, b))
}

/// Whether `s` starts with `p`.
fn text_begins_with(s: &str, p: &str) -> (b: bool)
    ensures
        b == begins_with(s@, p@),
{
    let n = s.unicode_len();
    let m = p.unicode_len();
    m <= n && str_eq(s.substring_char(0, m), p)
}

/// Whether `s` ends with `p`.
fn text_finishes_with(s: &str, p: &str) -> (b: bool)
    ensures
        b == finishes_with(s@, p@),
{
    let n = s.unicode_len();
    let m = p.unicode_len();
    m <= n && str_eq(s.substring_char(n - m, n), p)
}

/// Four blanks for each of `level` levels.
fn indent(level: usize) -> (r: String)
    ensures
        r@ == indent_text(level as nat),
{
    proof {
        reveal_strlit("    ");
    }
    let mut r = String::new();
    let mut i: usize = 0;
    while i < level
        invariant
            i <= level,
            r@ == indent_text(i as nat),
        decreases level - i,
    {
        r.append("    ");
        i = i + 1;
    }
    r
}

/// Format a GalaxC source: every line trimmed and indented four blanks
/// per open block, blank lines kept, and a single line break at the end.
pub fn format_source(source: &str) -> (r: String)
    ensures
        r@ == formatted(source@),
{
    let lines = split_lines(source);
    let ghost ls = lines_of(source@);
    let mut out = String::new();
    let mut level: usize = 0;
    let mut i: usize = 0;
    while i < lines.len()
        invariant
            views(lines@) == ls,
            i <= lines@.len(),
            level <= i,
            (out@, level as nat) == format_prefix(ls, i as int),
        decreases lines@.len() - i,
    {
        assert(lines@[i as int]@ == ls[i as int]);
        proof {
            reveal_strlit("end");
            reveal_strlit("end ");
            reveal_strlit("else");
            reveal_strlit("=>");
            reveal_strlit("\n");
        }
        let t = trim_text(lines[i].as_str());
        if t.unicode_len() == 0 {
            let ghost before = out@;
            out.append("\n");
            assert("\n"@ =~= seq!['\n']);
            assert(out@ =~= before.push('\n'));
        } else {
            if str_eq(t.as_str(), "end") || text_begins_with(t.as_str(), "end ") {
                level = if level > 0 {
                    level - 1
                } else {
                    0
                };
            }
            if text_begins_with(t.as_str(), "else") {
                level = if level > 0 {
                    level - 1
                } else {
                    0
                };
            }
            let pad = indent(level);
            out.append(pad.as_str());
            out.append(t.as_str());
            out.append("\n");
            if text_finishes_with(t.as_str(), "=>") {
                level = level + 1;
            }
        }
        i = i + 1;
    }
    let chars = crate::parser::literal::chars_of(out.as_str());
    let mut k = chars.len();
    assert(chars@.subrange(0, k as int) =~= out@);
    while k >= 2 && chars[k - 1] == '\n' && chars[k - 2] == '\n'
        invariant
            chars@ == out@,
            k <= chars@.len(),
            single_final_break(chars@.subrange(0, k as int)) == single_final_break(out@),
        decreases k,
    {
        assert(chars@.subrange(0, k as int).drop_last() =~= chars@.subrange(0, k - 1));
        k = k - 1;
    }
    String::from_str(out.as_str().substring_char(0, k))
}

/// The main source file of a new project named `name`.
pub open spec fn project_main_text(name: Seq<char>) -> Seq<char> {
    "--! "@ + name + " -- a GalaxC project\n\norbit main\n\n@effect(io)\nop launch() =>\n    console.write(\"GalaxC online. All systems nominal.\")\nend\n"@
}

/// The configuration file of a new project named `name`.
pub open spec fn project_config_text(name: Seq<char>) -> Seq<char> {
    "[project]\nname = \""@ + name + "\"\nversion = \"0.1.0\"\nentry = \"src/main.gxc\"\n"@
}

/// The main source file of a new project named `name`.
pub fn project_main_source(name: &str) -> (r: String)
    ensures
        r@ == project_main_text(name@),
{
    let head = "--! ";
    let tail = " -- a GalaxC project\n\norbit main\n\n@effect(io)\nop launch() =>\n    console.write(\"GalaxC online. All systems nominal.\")\nend\n";
    String::from_str(head).concat(name).concat(tail)
}

/// The configuration file of a new project named `name`.
pub fn project_config(name: &str) -> (r: String)
    ensures
        r@ == project_config_text(name@),
{
    let head = "[project]\nname = \"";
    let tail = "\"\nversion = \"0.1.0\"\nentry = \"src/main.gxc\"\n";
    String::from_str(head).concat(name).concat(tail)
}

/// The C compilers tried, in order, when the preferred one is not found.
pub open spec fn fallback_compilers() -> Seq<Seq<char>> {
    seq!["gcc"@, "clang"@, "cc"@, "cl"@]
}

/// The compiler to use, given whether the preferred one (`found[0]`) and
/// each fallback in turn (`found[1]` to `found[4]`) is on the search path:
/// the preferred one if found, else the first fallback found, else the
/// preferred one after all.
pub open spec fn chosen_compiler(preferred: Seq<char>, found: Seq<bool>) -> Seq<char> {
    if found[0] {
        preferred
    } else if found[1] {
        fallback_compilers()[0]
    } else if found[2] {
        fallback_compilers()[1]
    } else if found[3] {
        fallback_compilers()[2]
    } else if found[4] {
        fallback_compilers()[3]
    } else {
        preferred
    }
}

/// The name of the C compiler to run, as `chosen_compiler` picks it from
/// what a search of the path found.
pub fn choose_compiler(preferred: &str, found: &Vec<bool>) -> (r: String)
    requires
        found@.len() == 5,
    ensures
        r@ == chosen_compiler(preferred@, found@),
{
    proof {
        reveal_strlit("gcc");
        reveal_strlit("clang");
        reveal_strlit("cc");
        reveal_strlit("cl");
    }
    if found[0] {
        String::from_str(preferred)
    } else if found[1] {
        String::from_str("gcc")
    } else if found[2] {
        String::from_str("clang")
    } else if found[3] {
        String::from_str("cc")
    } else if found[4] {
        String::from_str("cl")
    } else {
        String::from_str(preferred)
    }
}

/// The text of the lines `ls`, each ended by a line break.
pub open spec fn join_lines(ls: Seq<Seq<char>>) -> Seq<char>
    decreases ls.len(),
{
    if ls.len() == 0 {
        Seq::empty()
    } else {
        join_lines(ls.drop_last()) + ls.last() + seq!['\n']
    }
}

/// A line as `lines_of` gives it: no line break in it, and no carriage
/// return at its end.
pub open spec fn plain_line(l: Seq<char>) -> bool {
    &&& forall|j: int| 0 <= j < l.len() ==> l[j] != '\n'
    &&& l.len() > 0 ==> l.last() != '\r'
}

proof fn lemma_join_front(ls: Seq<Seq<char>>)
    requires
        ls.len() > 0,
    ensures
        join_lines(ls) == ls[0] + seq!['\n'] + join_lines(ls.drop_first()),
    decreases ls.len(),
{
    if ls.len() == 1 {
        assert(ls.drop_last() =~= Seq::<Seq<char>>::empty());
        assert(ls.drop_first() =~= Seq::<Seq<char>>::empty());
        assert(join_lines(ls) =~= ls[0] + seq!['\n'] + join_lines(ls.drop_first()));
    } else {
        lemma_join_front(ls.drop_last());
        assert(ls.drop_last().drop_first() =~= ls.drop_first().drop_last());
        assert(ls.drop_first().last() == ls.last());
        assert(join_lines(ls) =~= ls[0] + seq!['\n'] + join_lines(ls.drop_first()));
    }
}

/// Reading the lines of joined lines gives them back.
proof fn lemma_lines_of_join(ls: Seq<Seq<char>>)
    requires
        forall|i: int| 0 <= i < ls.len() ==> plain_line(#[trigger] ls[i]),
    ensures
        lines_of(join_lines(ls)) == ls,
    decreases ls.len(),
{
    if ls.len() > 0 {
        lemma_join_front(ls);
        let s = join_lines(ls);
        let l0 = ls[0];
        let rest = join_lines(ls.drop_first());
        assert(plain_line(l0));
        lemma_line_break_bounds(s, 0);
        let k = line_break(s, 0);
        assert(s[l0.len() as int] == '\n');
        if k < l0.len() {
            assert(s[k] == l0[k]);
        }
        assert(k == l0.len());
        assert(s.subrange(0, k) =~= l0);
        assert(s.subrange(k + 1, s.len() as int) =~= rest);
        assert forall|i: int| 0 <= i < ls.drop_first().len() implies plain_line(#[trigger] ls.drop_first()[i]) by {
            assert(ls.drop_first()[i] == ls[i + 1]);
        }
        lemma_lines_of_join(ls.drop_first());
        assert(lines_of(s) =~= seq![l0] + ls.drop_first());
        assert(seq![l0] + ls.drop_first() =~= ls);
    }
}

/// The lines of a text hold no line break.
proof fn lemma_lines_of_plain(s: Seq<char>)
    ensures
        forall|i: int, j: int|
            0 <= i < lines_of(s).len() && 0 <= j < lines_of(s)[i].len() ==> #[trigger] lines_of(s)[i][j]
                != '\n',
    decreases s.len(),
{
    if s.len() > 0 {
        lemma_line_break_bounds(s, 0);
        let k = line_break(s, 0);
        if k < s.len() {
            lemma_lines_of_plain(s.subrange(k + 1, s.len() as int));
            let ls = lines_of(s);
            let rest = lines_of(s.subrange(k + 1, s.len() as int));
            assert forall|i: int, j: int| 0 <= i < ls.len() && 0 <= j < ls[i].len() implies #[trigger] ls[i][j]
                != '\n' by {
                if i > 0 {
                    assert(ls[i] == rest[i - 1]);
                }
            }
        }
    }
}

proof fn lemma_trim_start_suffix(x: Seq<char>)
    ensures
        trim_start(x).len() <= x.len(),
        trim_start(x) == x.subrange(x.len() - trim_start(x).len(), x.len() as int),
        trim_start(x).len() > 0 ==> !is_white(trim_start(x)[0]),
    decreases x.len(),
{
    if x.len() > 0 && is_white(x[0]) {
        lemma_trim_start_suffix(x.drop_first());
        assert(x.drop_first().subrange(x.drop_first().len() - trim_start(x).len(), x.drop_first().len() as int)
            =~= x.subrange(x.len() - trim_start(x).len(), x.len() as int));
    } else {
        assert(x.subrange(0, x.len() as int) =~= x);
    }
}

proof fn lemma_trim_end_prefix(y: Seq<char>)
    ensures
        trim_end(y).len() <= y.len(),
        trim_end(y) == y.subrange(0, trim_end(y).len() as int),
        trim_end(y).len() > 0 ==> !is_white(trim_end(y).last()),
    decreases y.len(),
{
    if y.len() > 0 && is_white(y.last()) {
        lemma_trim_end_prefix(y.drop_last());
        assert(y.drop_last().subrange(0, trim_end(y).len() as int) =~= y.subrange(0, trim_end(y).len() as int));
    } else {
        assert(y.subrange(0, y.len() as int) =~= y);
    }
}

/// A trimmed line with no line break keeps none, and neither starts nor
/// ends with white space.
proof fn lemma_trimmed_shape(x: Seq<char>)
    requires
        forall|j: int| 0 <= j < x.len() ==> x[j] != '\n',
    ensures
        forall|j: int| 0 <= j < trimmed(x).len() ==> trimmed(x)[j] != '\n',
        trimmed(x).len() > 0 ==> !is_white(trimmed(x)[0]) && !is_white(trimmed(x).last()),
{
    let a = trim_start(x);
    lemma_trim_start_suffix(x);
    lemma_trim_end_prefix(a);
    let t = trimmed(x);
    let off = x.len() - a.len();
    assert forall|j: int| 0 <= j < t.len() implies t[j] != '\n' by {
        assert(t[j] == a[j]);
        assert(a[j] == x[off + j]);
    }
    if t.len() > 0 {
        assert(t[0] == a[0]);
    }
}

/// Blanks before a text are trimmed away.
proof fn lemma_trim_start_blanks(p: Seq<char>, t: Seq<char>)
    requires
        forall|j: int| 0 <= j < p.len() ==> p[j] == ' ',
    ensures
        trim_start(p + t) == trim_start(t),
    decreases p.len(),
{
    if p.len() > 0 {
        assert((p + t)[0] == ' ');
        assert((p + t).drop_first() =~= p.drop_first() + t);
        lemma_trim_start_blanks(p.drop_first(), t);
    } else {
        assert(p + t =~= t);
    }
}

/// An indent is made of blanks.
proof fn lemma_indent_blanks(level: nat)
    ensures
        forall|j: int| 0 <= j < indent_text(level).len() ==> indent_text(level)[j] == ' ',
    decreases level,
{
    reveal_strlit("    ");
    if level > 0 {
        lemma_indent_blanks((level - 1) as nat);
        let a = indent_text((level - 1) as nat);
        assert forall|j: int| 0 <= j < indent_text(level).len() implies indent_text(level)[j] == ' ' by {
            if j >= a.len() {
                assert(indent_text(level)[j] == "    "@[j - a.len()]);
            }
        }
    }
}

/// The text of a formatted line: a blank line stays empty, any other is
/// indented to its level.
pub open spec fn line_text(level: nat, t: Seq<char>) -> Seq<char> {
    if t.len() == 0 {
        Seq::empty()
    } else {
        indent_text(placed(level, t)) + t
    }
}

/// Trimming a formatted line gives back the trimmed line it was made from.
proof fn lemma_trim_line_text(level: nat, t: Seq<char>)
    requires
        t.len() > 0 ==> !is_white(t[0]) && !is_white(t.last()),
        forall|j: int| 0 <= j < t.len() ==> t[j] != '\n',
    ensures
        trimmed(line_text(level, t)) == t,
        plain_line(line_text(level, t)),
{
    if t.len() > 0 {
        let l = placed(level, t);
        lemma_indent_blanks(l);
        lemma_trim_start_blanks(indent_text(l), t);
        let line = line_text(level, t);
        assert forall|j: int| 0 <= j < line.len() implies line[j] != '\n' by {
            if j < indent_text(l).len() {
                assert(line[j] == indent_text(l)[j]);
            } else {
                assert(line[j] == t[j - indent_text(l).len()]);
            }
        }
        assert(line.last() == t.last());
    }
}

/// The formatted lines of the first `i` lines of `ls`.
pub open spec fn formatted_lines(ls: Seq<Seq<char>>, i: int) -> Seq<Seq<char>> {
    Seq::new(i as nat, |j: int| line_text(format_prefix(ls, j).1, trimmed(ls[j])))
}

/// Formatting the first `i` lines writes their formatted lines, each ended
/// by a line break.
proof fn lemma_format_prefix_join(ls: Seq<Seq<char>>, i: int)
    requires
        0 <= i <= ls.len(),
    ensures
        format_prefix(ls, i).0 == join_lines(formatted_lines(ls, i)),
    decreases i,
{
    reveal_strlit("\n");
    if i > 0 {
        lemma_format_prefix_join(ls, i - 1);
        let f = formatted_lines(ls, i);
        assert(f.drop_last() =~= formatted_lines(ls, i - 1));
        let t = trimmed(ls[i - 1]);
        if t.len() == 0 {
            assert(format_prefix(ls, i).0 =~= join_lines(f));
        } else {
            assert(format_prefix(ls, i).0 =~= join_lines(f));
        }
    } else {
        assert(formatted_lines(ls, i) =~= Seq::<Seq<char>>::empty());
    }
}

/// Formatting depends only on the trimmed lines: lines that trim alike
/// format alike.
proof fn lemma_same_steps(a: Seq<Seq<char>>, b: Seq<Seq<char>>, m: int)
    requires
        0 <= m <= a.len(),
        m <= b.len(),
        forall|j: int| 0 <= j < m ==> trimmed(#[trigger] a[j]) == trimmed(b[j]),
    ensures
        format_prefix(a, m) == format_prefix(b, m),
    decreases m,
{
    if m > 0 {
        lemma_same_steps(a, b, m - 1);
        assert(trimmed(a[m - 1]) == trimmed(b[m - 1]));
    }
}

/// The lines of `ls` that hold more than blanks, in order.
pub open spec fn without_blanks(ls: Seq<Seq<char>>) -> Seq<Seq<char>>
    decreases ls.len(),
{
    if ls.len() == 0 {
        ls
    } else if trimmed(ls.last()).len() == 0 {
        without_blanks(ls.drop_last())
    } else {
        without_blanks(ls.drop_last()).push(ls.last())
    }
}

/// Blank lines leave the indentation alone: after any first `i` lines the
/// indent level is the one reached after those lines without their blank
/// ones, so each line that holds text is indented as if no blank line
/// stood before it.
pub proof fn law_blank_lines_keep_indent(ls: Seq<Seq<char>>, i: int)
    requires
        0 <= i <= ls.len(),
    ensures
        format_prefix(ls, i).1 == format_prefix(
            without_blanks(ls.subrange(0, i)),
            without_blanks(ls.subrange(0, i)).len() as int,
        ).1,
    decreases i,
{
    let p = ls.subrange(0, i);
    if i > 0 {
        law_blank_lines_keep_indent(ls, i - 1);
        assert(p.drop_last() =~= ls.subrange(0, i - 1));
        assert(p.last() == ls[i - 1]);
        let w0 = without_blanks(ls.subrange(0, i - 1));
        if trimmed(ls[i - 1]).len() != 0 {
            let w = w0.push(ls[i - 1]);
            assert(without_blanks(p) == w);
            assert forall|j: int| 0 <= j < w0.len() implies trimmed(#[trigger] w[j]) == trimmed(w0[j]) by {
                assert(w[j] == w0[j]);
            }
            lemma_same_steps(w, w0, w0.len() as int);
            assert(w[w0.len() as int] == ls[i - 1]);
        }
    } else {
        assert(without_blanks(p) =~= Seq::<Seq<char>>::empty());
    }
}

/// Each indent level is four spaces.
pub proof fn law_indent_is_four_spaces(level: nat)
    ensures
        indent_text(level) == Seq::new(4 * level, |k: int| ' '),
    decreases level,
{
    reveal_strlit("    ");
    if level > 0 {
        law_indent_is_four_spaces((level - 1) as nat);
    }
    assert(indent_text(level) =~= Seq::new(4 * level, |k: int| ' '));
}

/// A block that a line ending in `=>` opens and the next line's `end`
/// closes leaves the indent level where it was, and the `end` stands at
/// the indentation of the line that opened the block.
pub proof fn law_block_closes_where_it_opens(ls: Seq<Seq<char>>, i: int)
    requires
        0 <= i,
        i + 2 <= ls.len(),
        trimmed(ls[i]).len() > 0,
        finishes_with(trimmed(ls[i]), "=>"@),
        !closes_block(trimmed(ls[i])),
        !begins_with(trimmed(ls[i]), "else"@),
        trimmed(ls[i + 1]) == "end"@,
    ensures
        format_prefix(ls, i + 2).1 == format_prefix(ls, i).1,
        placed(format_prefix(ls, i + 1).1, trimmed(ls[i + 1])) == placed(format_prefix(ls, i).1, trimmed(ls[i])),
{
    reveal_strlit("end");
    reveal_strlit("else");
    reveal_strlit("end ");
    assert(!begins_with("end"@, "else"@)) by {
        assert("end"@.len() < "else"@.len());
    }
    assert(!finishes_with("end"@, "=>"@)) by {
        reveal_strlit("=>");
        assert("end"@[2] != "=>"@[1]);
    }
    let l0 = format_prefix(ls, i).1;
    let t1 = trimmed(ls[i]);
    assert(placed(l0, t1) == l0);
    assert(format_prefix(ls, i + 1).1 == l0 + 1);
    assert(closes_block(trimmed(ls[i + 1])));
    assert(placed((l0 + 1) as nat, trimmed(ls[i + 1])) == l0);
    assert(format_prefix(ls, i + 2).1 == l0);
}

/// How many of the lines `ls` are kept when the line breaks that end their
/// text are cut down to one: the trailing blank lines go, but one line
/// stays.
pub open spec fn kept_lines(ls: Seq<Seq<char>>) -> nat
    decreases ls.len(),
{
    if ls.len() >= 2 && ls.last().len() == 0 {
        kept_lines(ls.drop_last())
    } else {
        ls.len()
    }
}

proof fn lemma_single_break_join(ls: Seq<Seq<char>>)
    requires
        forall|i: int| 0 <= i < ls.len() ==> plain_line(#[trigger] ls[i]),
    ensures
        kept_lines(ls) <= ls.len(),
        kept_lines(ls) >= 2 ==> ls[kept_lines(ls) - 1].len() > 0,
        single_final_break(join_lines(ls)) == join_lines(ls.subrange(0, kept_lines(ls) as int)),
    decreases ls.len(),
{
    let s = join_lines(ls);
    if ls.len() >= 2 && ls.last().len() == 0 {
        let j = join_lines(ls.drop_last());
        assert(s =~= j + seq!['\n']);
        assert(j.last() == '\n');
        assert(s.drop_last() =~= j);
        assert forall|i: int| 0 <= i < ls.drop_last().len() implies plain_line(#[trigger] ls.drop_last()[i]) by {
            assert(ls.drop_last()[i] == ls[i]);
        }
        lemma_single_break_join(ls.drop_last());
        assert(ls.drop_last().subrange(0, kept_lines(ls) as int) =~= ls.subrange(0, kept_lines(ls) as int));
    } else {
        assert(ls.subrange(0, ls.len() as int) =~= ls);
        if ls.len() > 0 {
            let l = ls.last();
            assert(plain_line(l));
            if l.len() > 0 {
                assert(s[s.len() - 2] == l.last());
            } else {
                assert(ls.len() == 1);
                assert(ls.drop_last() =~= Seq::<Seq<char>>::empty());
                assert(join_lines(ls.drop_last()) =~= Seq::<char>::empty());
                assert(s =~= seq!['\n']);
            }
        }
    }
}

/// Dropping repeated line breaks at the end leaves no two of them there.
proof fn lemma_single_final_break_ends(s: Seq<char>)
    ensures
        !(single_final_break(s).len() >= 2 && single_final_break(s).last() == '\n' && single_final_break(s)[single_final_break(
            s,
        ).len() - 2] == '\n'),
    decreases s.len(),
{
    if s.len() >= 2 && s.last() == '\n' && s[s.len() - 2] == '\n' {
        lemma_single_final_break_ends(s.drop_last());
    }
}

/// The formatted text never ends in a blank line: it has at most one line
/// break at its end.
pub proof fn law_format_single_final_newline(source: Seq<char>)
    ensures
        !(formatted(source).len() >= 2 && formatted(source).last() == '\n' && formatted(source)[formatted(
            source,
        ).len() - 2] == '\n'),
{
    let ls = lines_of(source);
    lemma_single_final_break_ends(format_prefix(ls, ls.len() as int).0);
}

/// In lines joined by line breaks, where no line ends in white space, no
/// line break follows white space.
proof fn lemma_join_no_trailing(ls: Seq<Seq<char>>)
    requires
        forall|i: int| 0 <= i < ls.len() ==> (#[trigger] ls[i]).len() > 0 ==> !is_white(ls[i].last()),
        forall|i: int| 0 <= i < ls.len() ==> plain_line(#[trigger] ls[i]),
    ensures
        forall|j: int| 0 < j < join_lines(ls).len() && join_lines(ls)[j] == '\n' && join_lines(ls)[j - 1] != '\n'
            ==> !is_white(#[trigger] join_lines(ls)[j - 1]),
    decreases ls.len(),
{
    if ls.len() > 0 {
        let p = ls.drop_last();
        assert forall|i: int| 0 <= i < p.len() implies (#[trigger] p[i]).len() > 0 ==> !is_white(p[i].last()) by {
            assert(p[i] == ls[i]);
        }
        assert forall|i: int| 0 <= i < p.len() implies plain_line(#[trigger] p[i]) by {
            assert(p[i] == ls[i]);
        }
        lemma_join_no_trailing(p);
        let a = join_lines(p);
        let l = ls.last();
        let s = join_lines(ls);
        assert(s =~= a + l + seq!['\n']);
        assert forall|j: int| 0 < j < s.len() && s[j] == '\n' && s[j - 1] != '\n' implies !is_white(#[trigger] s[j - 1]) by {
            if j < a.len() {
                assert(s[j] == a[j] && s[j - 1] == a[j - 1]);
            } else if j < a.len() + l.len() {
                assert(s[j] == l[j - a.len()]);
                assert(plain_line(ls[ls.len() - 1]));
            } else {
                if l.len() > 0 {
                    assert(s[j - 1] == l.last());
                } else {
                    assert(s[j - 1] == a[j - 1]);
                }
            }
        }
    }
}

/// No line of the formatted text ends in white space: no line break in it
/// follows a blank or a tab.
pub proof fn law_format_no_trailing_blanks(source: Seq<char>)
    ensures
        forall|j: int| 0 < j < formatted(source).len() && formatted(source)[j] == '\n' && formatted(source)[j - 1]
            != '\n' ==> !is_white(#[trigger] formatted(source)[j - 1]),
{
    let ls = lines_of(source);
    let n = ls.len() as int;
    let fs = formatted_lines(ls, n);
    lemma_format_prefix_join(ls, n);
    lemma_lines_of_plain(source);
    assert forall|i: int| 0 <= i < n implies plain_line(#[trigger] fs[i]) && (fs[i].len() > 0 ==> !is_white(
        fs[i].last(),
    )) by {
        assert forall|j: int| 0 <= j < ls[i].len() implies ls[i][j] != '\n' by {
            assert(lines_of(source)[i][j] != '\n');
        }
        lemma_trimmed_shape(ls[i]);
        lemma_trim_line_text(format_prefix(ls, i).1, trimmed(ls[i]));
        let t = trimmed(ls[i]);
        if t.len() > 0 {
            let l = indent_text(placed(format_prefix(ls, i).1, t)) + t;
            assert(fs[i] == l);
            assert(l.last() == t.last());
        }
    }
    lemma_single_break_join(fs);
    let m = kept_lines(fs) as int;
    let k = fs.subrange(0, m);
    assert(formatted(source) == join_lines(k));
    assert forall|i: int| 0 <= i < k.len() implies plain_line(#[trigger] k[i]) by {
        assert(k[i] == fs[i]);
    }
    assert forall|i: int| 0 <= i < k.len() implies (#[trigger] k[i]).len() > 0 ==> !is_white(k[i].last()) by {
        assert(k[i] == fs[i]);
    }
    lemma_join_no_trailing(k);
}

/// Formatting is idempotent: a formatted text is its own formatting.
pub proof fn law_format_idempotent(source: Seq<char>)
    ensures
        formatted(formatted(source)) == formatted(source),
{
    let ls = lines_of(source);
    let n = ls.len() as int;
    let fs = formatted_lines(ls, n);
    lemma_format_prefix_join(ls, n);
    lemma_lines_of_plain(source);
    assert forall|i: int| 0 <= i < n implies plain_line(#[trigger] fs[i]) && trimmed(fs[i]) == trimmed(ls[i]) by {
        assert forall|j: int| 0 <= j < ls[i].len() implies ls[i][j] != '\n' by {
            assert(lines_of(source)[i][j] != '\n');
        }
        lemma_trimmed_shape(ls[i]);
        lemma_trim_line_text(format_prefix(ls, i).1, trimmed(ls[i]));
    }
    lemma_single_break_join(fs);
    let m = kept_lines(fs) as int;
    let k = fs.subrange(0, m);
    assert(formatted(source) == join_lines(k));
    assert forall|i: int| 0 <= i < k.len() implies plain_line(#[trigger] k[i]) by {
        assert(k[i] == fs[i]);
    }
    lemma_lines_of_join(k);
    assert forall|j: int| 0 <= j < m implies trimmed(#[trigger] k[j]) == trimmed(ls[j]) by {
        assert(k[j] == fs[j]);
    }
    lemma_same_steps(k, ls, m);
    lemma_format_prefix_join(ls, m);
    assert(formatted_lines(ls, m) =~= k);
    lemma_single_break_join(k);
    if m >= 2 {
        assert(k[m - 1] == fs[m - 1]);
    }
    assert(kept_lines(k) == m);
    assert(k.subrange(0, m) =~= k);
}

} // verus!
