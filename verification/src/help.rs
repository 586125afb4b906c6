//! The help page of a command.
//!
//! The page names the command with its ancestors, then gives its version,
//! author and description, how it is used, its arguments, its subcommands
//! and its license. On a colored page the headings and names are set off
//! with terminal styles; the text is otherwise the same.

use crate::arg::{arg_views, ArgView};
use crate::command::{command_views, lemma_command_views, Command, CommandView};
use crate::style::{bold, dimmed, italic, styled, underline, BOLD, DIMMED, ITALIC, UNDERLINE};
use vstd::prelude::*;
use vstd::string::*;

verus! {

/// The number of bytes that `text` takes as UTF-8.
pub open spec fn byte_len(text: Seq<char>) -> nat {
    vstd::utf8::encode_utf8(text).len()
}

/// `c` is white space, as Unicode defines it.
pub open spec fn is_whitespace(c: char) -> bool {
    ||| '\u{9}' <= c <= '\u{d}'
    ||| c == ' '
    ||| c == '\u{85}'
    ||| c == '\u{a0}'
    ||| c == '\u{1680}'
    ||| '\u{2000}' <= c <= '\u{200a}'
    ||| c == '\u{2028}'
    ||| c == '\u{2029}'
    ||| c == '\u{202f}'
    ||| c == '\u{205f}'
    ||| c == '\u{3000}'
}

/// `text` without the white space at its start.
pub open spec fn trim_start(text: Seq<char>) -> Seq<char>
    decreases text.len(),
{
    if text.len() > 0 && is_whitespace(text[0]) {
        trim_start(text.skip(1))
    } else {
        text
    }
}

/// `text` without the white space at its end.
pub open spec fn trim_end(text: Seq<char>) -> Seq<char>
    decreases text.len(),
{
    if text.len() > 0 && is_whitespace(text.last()) {
        trim_end(text.drop_last())
    } else {
        text
    }
}

/// `text` without the white space at its start and at its end.
pub open spec fn trimmed(text: Seq<char>) -> Seq<char> {
    trim_end(trim_start(text))
}

/// The names one after the other, with a space between each two.
pub open spec fn joined(names: Seq<Seq<char>>) -> Seq<char>
    decreases names.len(),
{
    if names.len() == 0 {
        Seq::empty()
    } else if names.len() == 1 {
        names[0]
    } else {
        joined(names.drop_last()) + " "@ + names.last()
    }
}

/// The name of the command preceded by the names of its ancestors.
pub open spec fn full_name(cmd: CommandView) -> Seq<char> {
    trimmed(joined(cmd.parents) + " "@ + cmd.name)
}

/// The white space that follows a name of `len` bytes, so that what comes
/// after short names lines up, and what comes after a long name starts on
/// a line of its own.
pub open spec fn tabs_text(len: nat) -> Seq<char> {
    if len / 8 == 0 {
        "\t\t"@
    } else if len / 8 == 1 {
        "\t"@
    } else {
        "\n\t\t\t"@
    }
}

/// `text` in the style with the given code on a colored page, and as it is
/// on a plain one.
pub open spec fn emphasis(color: bool, code: char, text: Seq<char>) -> Seq<char> {
    if color {
        styled(code, text)
    } else {
        text
    }
}

/// A heading: bold and underlined on a colored page.
pub open spec fn heading(color: bool, text: Seq<char>) -> Seq<char> {
    emphasis(color, UNDERLINE, emphasis(color, BOLD, text))
}

/// The line for one argument or subcommand: its name, then its description.
pub open spec fn entry_line(color: bool, name: Seq<char>, description: Seq<char>) -> Seq<char> {
    "\t"@ + emphasis(color, BOLD, name) + tabs_text(byte_len(name)) + description + "\n"@
}

/// The lines for the subcommands, one for each.
pub open spec fn subcommand_lines(color: bool, commands: Seq<CommandView>) -> Seq<char>
    decreases commands.len(),
{
    if commands.len() == 0 {
        Seq::empty()
    } else {
        subcommand_lines(color, commands.drop_last()) + entry_line(
            color,
            commands.last().name,
            commands.last().description,
        )
    }
}

/// The section on the subcommands; empty when there are none.
pub open spec fn subcommands_text(color: bool, cmd: CommandView) -> Seq<char> {
    if cmd.subcommands.len() == 0 {
        Seq::empty()
    } else {
        heading(color, "SUBCOMMANDS:\n"@) + subcommand_lines(color, cmd.subcommands) + "\n"@
    }
}

/// The lines for the arguments, one for each.
pub open spec fn arg_lines(color: bool, args: Seq<ArgView>) -> Seq<char>
    decreases args.len(),
{
    if args.len() == 0 {
        Seq::empty()
    } else {
        arg_lines(color, args.drop_last()) + entry_line(
            color,
            args.last().name.text(),
            args.last().description,
        )
    }
}

/// The section on the arguments; empty when there are none.
pub open spec fn args_text(color: bool, cmd: CommandView) -> Seq<char> {
    if cmd.args.len() == 0 {
        Seq::empty()
    } else {
        heading(color, "ARGS:\n"@) + arg_lines(color, cmd.args)
    }
}

/// The section that shows how the command is called.
pub open spec fn usage_text(color: bool, cmd: CommandView, fullname: Seq<char>) -> Seq<char> {
    heading(color, "USAGE:"@) + (if cmd.args.len() > 0 {
        "\n\t"@ + emphasis(color, BOLD, fullname) + " [ARGS]"@
    } else {
        Seq::empty()
    }) + (if cmd.subcommands.len() > 0 {
        "\n\t"@ + emphasis(color, BOLD, fullname) + " [SUBCOMMAND] [ARGS]"@
    } else {
        Seq::empty()
    })
}

/// The line on the license; empty when none was given.
pub open spec fn license_text(cmd: CommandView) -> Seq<char> {
    match cmd.license {
        Some(license) => "Licensed under "@ + license,
        None => Seq::empty(),
    }
}

/// The line on the author; empty when none was given.
pub open spec fn author_text(cmd: CommandView) -> Seq<char> {
    match cmd.author {
        Some(author) => author + "\n"@,
        None => Seq::empty(),
    }
}

/// The version; empty when none was given.
pub open spec fn version_text(cmd: CommandView) -> Seq<char> {
    match cmd.version {
        Some(version) => version,
        None => Seq::empty(),
    }
}

/// The whole page, colored or plain.
pub open spec fn page(color: bool, cmd: CommandView) -> Seq<char> {
    emphasis(color, BOLD, full_name(cmd)) + " "@ + emphasis(color, DIMMED, version_text(cmd))
        + "\n"@ + emphasis(color, ITALIC, author_text(cmd)) + cmd.description + "\n\n"@
        + usage_text(color, cmd, full_name(cmd)) + "\n\n"@ + args_text(color, cmd) + "\n"@
        + subcommands_text(color, cmd) + emphasis(color, BOLD, license_text(cmd))
}

/// The help page of a command: colored if the command asks for it.
pub open spec fn help_text(cmd: CommandView) -> Seq<char> {
    page(cmd.color, cmd)
}

/// The white space that follows a name of `len` bytes on the help page.
pub fn tabs(len: usize) -> (r: &'static str)
    ensures
        r@ == tabs_text(len as nat),
{
    match len / 8 {
        0 => "\t\t",
        1 => "\t",
        _ => "\n\t\t\t",
    }
}

/// Whether `c` is white space.
fn is_space(c: char) -> (r: bool)
    ensures
        r == is_whitespace(c),
{
    (c >= '\u{9}' && c <= '\u{d}') || c == ' ' || c == '\u{85}' || c == '\u{a0}' || c == '\u{1680}'
        || (c >= '\u{2000}' && c <= '\u{200a}') || c == '\u{2028}' || c == '\u{2029}' || c
        == '\u{202f}' || c == '\u{205f}' || c == '\u{3000}'
}

/// The part of `text` that is left without the white space at its two ends.
fn trim(text: &str) -> (r: &str)
    ensures
        r@ == trimmed(text@),
{
    let len = text.unicode_len();
    let mut start: usize = 0;
    assert(text@.skip(0) =~= text@);
    while start < len && is_space(text.get_char(start))
        invariant
            len == text@.len(),
            start <= len,
            trim_start(text@) == trim_start(text@.skip(start as int)),
        decreases len - start,
    {
        assert(text@.skip(start as int).skip(1) =~= text@.skip(start + 1));
        start += 1;
    }
    let ghost rest = text@.skip(start as int);
    let mut end: usize = len;
    while end > start && is_space(text.get_char(end - 1))
        invariant
            len == text@.len(),
            start <= end <= len,
            trim_end(rest) == trim_end(text@.subrange(start as int, end as int)),
        decreases end - start,
    {
        assert(text@.subrange(start as int, end as int).drop_last() =~= text@.subrange(
            start as int,
            end - 1,
        ));
        end -= 1;
    }
    text.substring_char(start, end)
}

/// The names one after the other, with a space between each two.
fn join(names: &Vec<&'static str>) -> (r: String)
    ensures
        r@ == joined(crate::command::name_views(names@)),
{
    let ghost views = crate::command::name_views(names@);
    let mut out = String::new();
    let mut i: usize = 0;
    while i < names.len()
        invariant
            i <= names@.len(),
            views == crate::command::name_views(names@),
            out@ == joined(views.take(i as int)),
        decreases names@.len() - i,
    {
        if i > 0 {
            out.append(" ");
        }
        out.append(names[i]);
        proof {
            assert(views.take(i + 1).drop_last() =~= views.take(i as int));
        }
        i += 1;
    }
    assert(views.take(i as int) =~= views);
    out
}

/// The name of the command preceded by the names of its ancestors.
fn fullname(cmd: &Command) -> (r: String)
    ensures
        r@ == full_name(cmd@),
{
    proof {
        cmd.lemma_view();
    }
    let mut name = join(&cmd.parents);
    name.append(" ");
    name.append(cmd.name);
    trim(name.as_str()).to_owned()
}

/// The line on the license.
fn license(cmd: &Command) -> (r: String)
    ensures
        r@ == license_text(cmd@),
{
    proof {
        cmd.lemma_view();
    }
    let mut out = String::new();
    if let Some(license) = cmd.license {
        out.append("Licensed under ");
        out.append(license);
    }
    out
}

/// The line on the author.
fn author(cmd: &Command) -> (r: String)
    ensures
        r@ == author_text(cmd@),
{
    proof {
        cmd.lemma_view();
    }
    let mut out = String::new();
    if let Some(author) = cmd.author {
        out.append(author);
        out.append("\n");
    }
    out
}

/// The version, or nothing.
fn version(cmd: &Command) -> (r: &'static str)
    ensures
        r@ == version_text(cmd@),
{
    proof {
        cmd.lemma_view();
    }
    match cmd.version {
        Some(version) => version,
        None => {
            let none = "";
            proof {
                reveal_strlit("");
            }
            none
        },
    }
}

/// The section on the subcommands of a plain page.
fn subcommands_normal(cmd: &Command) -> (r: String)
    ensures
        r@ == subcommands_text(false, cmd@),
{
    proof {
        cmd.lemma_view();
        lemma_command_views(cmd.subcommands@);
    }
    let mut buf = String::new();
    if cmd.subcommands.len() == 0 {
        return buf;
    }
    buf.append("SUBCOMMANDS:\n");
    let ghost views = cmd@.subcommands;
    let mut i: usize = 0;
    while i < cmd.subcommands.len()
        invariant
            i <= cmd.subcommands@.len(),
            views == command_views(cmd.subcommands@),
            views.len() == cmd.subcommands@.len(),
            forall|j: int| 0 <= j < views.len() ==> #[trigger] views[j] == cmd.subcommands@[j]@,
            buf@ == "SUBCOMMANDS:\n"@ + subcommand_lines(false, views.take(i as int)),
        decreases cmd.subcommands@.len() - i,
    {
        let subcmd = &cmd.subcommands[i];
        proof {
            subcmd.lemma_view();
            assert(views.take(i + 1).drop_last() =~= views.take(i as int));
        }
        buf.append("\t");
        buf.append(subcmd.name);
        buf.append(tabs(subcmd.name.as_bytes().len()));
        buf.append(subcmd.description);
        buf.append("\n");
        i += 1;
    }
    assert(views.take(i as int) =~= views);
    buf.append("\n");
    buf
}

/// The section on the arguments of a plain page.
fn args_normal(cmd: &Command) -> (r: String)
    ensures
        r@ == args_text(false, cmd@),
{
    proof {
        cmd.lemma_view();
    }
    let args = cmd.args.inner();
    let mut buf = String::new();
    if args.len() == 0 {
        return buf;
    }
    buf.append("ARGS:\n");
    let ghost views = cmd@.args;
    let mut i: usize = 0;
    while i < args.len()
        invariant
            i <= args@.len(),
            views == arg_views(args@),
            buf@ == "ARGS:\n"@ + arg_lines(false, views.take(i as int)),
        decreases args@.len() - i,
    {
        let arg = &args[i];
        let name = arg.argname.to_string();
        proof {
            assert(views.take(i + 1).drop_last() =~= views.take(i as int));
        }
        buf.append("\t");
        buf.append(name.as_str());
        buf.append(tabs(name.as_str().as_bytes().len()));
        buf.append(arg.description);
        buf.append("\n");
        i += 1;
    }
    assert(views.take(i as int) =~= views);
    buf
}

/// The section on the usage of a plain page.
fn usage_normal(cmd: &Command, fullname: &str) -> (r: String)
    ensures
        r@ == usage_text(false, cmd@, fullname@),
{
    proof {
        cmd.lemma_view();
    }
    let mut buf = String::new();
    buf.append("USAGE:");
    if cmd.args.inner().len() > 0 {
        buf.append("\n\t");
        buf.append(fullname);
        buf.append(" [ARGS]");
    }
    if cmd.subcommands.len() > 0 {
        buf.append("\n\t");
        buf.append(fullname);
        buf.append(" [SUBCOMMAND] [ARGS]");
    }
    buf
}

/// The plain page.
fn create_normal(cmd: &Command) -> (r: String)
    ensures
        r@ == page(false, cmd@),
{
    proof {
        cmd.lemma_view();
    }
    let fullname = fullname(cmd);
    let mut page = String::new();
    page.append(fullname.as_str());
    page.append(" ");
    page.append(version(cmd));
    page.append("\n");
    page.append(author(cmd).as_str());
    page.append(cmd.description);
    page.append("\n\n");
    page.append(usage_normal(cmd, fullname.as_str()).as_str());
    page.append("\n\n");
    page.append(args_normal(cmd).as_str());
    page.append("\n");
    page.append(subcommands_normal(cmd).as_str());
    page.append(license(cmd).as_str());
    page
}

/// The section on the subcommands of a colored page.
fn subcommands_color(cmd: &Command) -> (r: String)
    ensures
        r@ == subcommands_text(true, cmd@),
{
    proof {
        cmd.lemma_view();
        lemma_command_views(cmd.subcommands@);
    }
    if cmd.subcommands.len() == 0 {
        return String::new();
    }
    let mut buf = underline(bold("SUBCOMMANDS:\n").as_str());
    let ghost views = cmd@.subcommands;
    let mut i: usize = 0;
    while i < cmd.subcommands.len()
        invariant
            i <= cmd.subcommands@.len(),
            views == command_views(cmd.subcommands@),
            views.len() == cmd.subcommands@.len(),
            forall|j: int| 0 <= j < views.len() ==> #[trigger] views[j] == cmd.subcommands@[j]@,
            buf@ == heading(true, "SUBCOMMANDS:\n"@) + subcommand_lines(true, views.take(i as int)),
        decreases cmd.subcommands@.len() - i,
    {
        let subcmd = &cmd.subcommands[i];
        proof {
            subcmd.lemma_view();
            assert(views.take(i + 1).drop_last() =~= views.take(i as int));
        }
        buf.append("\t");
        buf.append(bold(subcmd.name).as_str());
        buf.append(tabs(subcmd.name.as_bytes().len()));
        buf.append(subcmd.description);
        buf.append("\n");
        i += 1;
    }
    assert(views.take(i as int) =~= views);
    buf.append("\n");
    buf
}

/// The section on the arguments of a colored page.
fn args_color(cmd: &Command) -> (r: String)
    ensures
        r@ == args_text(true, cmd@),
{
    proof {
        cmd.lemma_view();
    }
    let args = cmd.args.inner();
    if args.len() == 0 {
        return String::new();
    }
    let mut buf = underline(bold("ARGS:\n").as_str());
    let ghost views = cmd@.args;
    let mut i: usize = 0;
    while i < args.len()
        invariant
            i <= args@.len(),
            views == arg_views(args@),
            buf@ == heading(true, "ARGS:\n"@) + arg_lines(true, views.take(i as int)),
        decreases args@.len() - i,
    {
        let arg = &args[i];
        let name = arg.argname.to_string();
        proof {
            assert(views.take(i + 1).drop_last() =~= views.take(i as int));
        }
        buf.append("\t");
        buf.append(bold(name.as_str()).as_str());
        buf.append(tabs(name.as_str().as_bytes().len()));
        buf.append(arg.description);
        buf.append("\n");
        i += 1;
    }
    assert(views.take(i as int) =~= views);
    buf
}

/// The section on the usage of a colored page.
fn usage_color(cmd: &Command, fullname: &str) -> (r: String)
    ensures
        r@ == usage_text(true, cmd@, fullname@),
{
    proof {
        cmd.lemma_view();
    }
    let mut buf = underline(bold("USAGE:").as_str());
    if cmd.args.inner().len() > 0 {
        buf.append("\n\t");
        buf.append(bold(fullname).as_str());
        buf.append(" [ARGS]");
    }
    if cmd.subcommands.len() > 0 {
        buf.append("\n\t");
        buf.append(bold(fullname).as_str());
        buf.append(" [SUBCOMMAND] [ARGS]");
    }
    buf
}

/// The colored page.
fn create_color(cmd: &Command) -> (r: String)
    ensures
        r@ == page(true, cmd@),
{
    proof {
        cmd.lemma_view();
    }
    let fullname = fullname(cmd);
    let mut page = bold(fullname.as_str());
    page.append(" ");
    page.append(dimmed(version(cmd)).as_str());
    page.append("\n");
    page.append(italic(author(cmd).as_str()).as_str());
    page.append(cmd.description);
    page.append("\n\n");
    page.append(usage_color(cmd, fullname.as_str()).as_str());
    page.append("\n\n");
    page.append(args_color(cmd).as_str());
    page.append("\n");
    page.append(subcommands_color(cmd).as_str());
    page.append(bold(license(cmd).as_str()).as_str());
    page
}

/// The help page of `cmd`.
pub fn create(cmd: &Command) -> (r: String)
    ensures
        r@ == help_text(cmd@),
{
    proof {
        cmd.lemma_view();
    }
    if cmd.color {
        create_color(cmd)
    } else {
        create_normal(cmd)
    }
}

} // verus!
