//! What holds of the bridge as a whole.

use crate::bridge::{
    arguments, number_at, parsed, pixels_at, rewritten, says, Call, BRIDGE_PREFIX,
    BRIDGE_SCRIPT_PATH, QT_TRANSPORT_SRC,
};
use crate::decimal::{
    decimal, is_digit, law_number_undoes_decimal, lemma_numeral, numeral,
};
use crate::search::{
    law_replace_leaves_no_occurrence, law_replace_without_occurrence, occurs,
};
use crate::split::{free_of, join, law_split_undoes_join};
use crate::text::{is_space, trimmed};
use vstd::prelude::*;

verus! {

/// The method that the shim posts a call to.
pub open spec fn method_of(c: Call) -> Seq<char> {
    match c {
        Call::LayoutInit { .. } => "layoutInit"@,
        Call::LayoutDone { .. } => "layoutDone"@,
        Call::LayoutPrev { .. } => "layoutPrev"@,
        Call::LayoutJump { .. } => "layoutJump"@,
        Call::Command(_) => "command"@,
        Call::Shell(_, _) => "shell"@,
        Call::StopShell(_) => "stopShell"@,
        Call::VideoPlay { .. } => "videoPlay"@,
        Call::VideoStop { .. } => "videoStop"@,
        Call::Log(_) => "log"@,
    }
}

/// A flag as the shim writes it.
pub open spec fn flag(b: bool) -> Seq<char> {
    if b {
        decimal(1)
    } else {
        decimal(0)
    }
}

/// The arguments that the shim posts with a call.
pub open spec fn posted(c: Call) -> Seq<Seq<char>> {
    match c {
        Call::LayoutInit { id, width, height } => seq![
            decimal(id as int),
            decimal(width as int),
            decimal(height as int),
        ],
        Call::LayoutDone { id } => seq![decimal(id as int)],
        Call::LayoutPrev { id } => seq![decimal(id as int)],
        Call::LayoutJump { id, target } => seq![decimal(id as int), decimal(target as int)],
        Call::Command(code) => seq![code],
        Call::Shell(cmd, with_shell) => seq![cmd, flag(with_shell)],
        Call::StopShell(mode) => seq![decimal(mode as int)],
        Call::VideoPlay { mid, uri, x, y, w, h, muted } => seq![
            mid,
            uri,
            decimal(x as int),
            decimal(y as int),
            decimal(w as int),
            decimal(h as int),
            flag(muted),
        ],
        Call::VideoStop { mid } => seq![mid],
        Call::Log(line) => seq![line],
    }
}

/// The URL that the shim posts a call to.
pub open spec fn url_of(c: Call) -> Seq<char> {
    BRIDGE_PREFIX@ + method_of(c)
}

/// The body that the shim posts with a call: its arguments, one to a line.
pub open spec fn body_of(c: Call) -> Seq<char> {
    join(posted(c), seq!['\n'])
}

/// Whether a call can be told from its arguments on the wire: no text in it
/// holds a line break, a text that stands alone and is needed is not empty,
/// and a kill mode is one of the three there are.
pub open spec fn is_plain(c: Call) -> bool {
    match c {
        Call::Command(code) => code.len() > 0 && !code.contains('\n'),
        Call::Shell(cmd, _) => !cmd.contains('\n'),
        Call::StopShell(mode) => mode <= 2,
        Call::VideoPlay { mid, uri, .. } => !mid.contains('\n') && !uri.contains('\n'),
        Call::VideoStop { mid } => mid.len() > 0 && !mid.contains('\n'),
        Call::Log(line) => !line.contains('\n'),
        _ => true,
    }
}

/// A number on the wire is one line with no white space, and reads as itself.
pub proof fn lemma_decimal_on_the_wire(n: int)
    ensures
        decimal(n).len() > 0,
        free_of(decimal(n), set!['\n']),
        trimmed(decimal(n)) == decimal(n),
        !is_space(decimal(n).last()),
{
    let d = decimal(n);
    if n < 0 {
        lemma_numeral((-n) as nat);
        let m = numeral((-n) as nat);
        assert forall|i: int| 0 <= i < d.len() implies !set!['\n'].contains(#[trigger] d[i]) by {
            if i > 0 {
                assert(d[i] == m[i - 1]);
                assert(is_digit(m[i - 1]));
            }
        }
        assert(d.last() == m.last());
        assert(is_digit(m[m.len() - 1]));
    } else {
        lemma_numeral(n as nat);
        assert(is_digit(d[0]));
        assert(is_digit(d[d.len() - 1]));
    }
}

proof fn lemma_number_arrives(args: Seq<Seq<char>>, i: int, n: i64)
    requires
        0 <= i < args.len(),
        args[i] == decimal(n as int),
    ensures
        number_at(args, i) == Some(n),
{
    lemma_decimal_on_the_wire(n as int);
    law_number_undoes_decimal(n as int);
}

proof fn lemma_pixels_arrive(args: Seq<Seq<char>>, i: int, n: i32)
    requires
        0 <= i < args.len(),
        args[i] == decimal(n as int),
    ensures
        pixels_at(args, i) == n,
{
    lemma_number_arrives(args, i, n as i64);
}

proof fn lemma_flag_arrives(args: Seq<Seq<char>>, i: int, b: bool)
    requires
        0 <= i < args.len(),
        args[i] == flag(b),
    ensures
        says(args, i, "1"@) == b,
        !says(args, i, "true"@) || b,
{
    lemma_decimal_on_the_wire(0);
    lemma_decimal_on_the_wire(1);
    reveal_strlit("1");
    reveal_strlit("true");
    assert(decimal(1) =~= "1"@);
    assert(decimal(0)[0] == '0');
    assert("1"@[0] == '1');
}

proof fn lemma_methods_differ()
    ensures
        "layoutInit"@.len() == 10,
        "layoutDone"@.len() == 10,
        "layoutPrev"@.len() == 10,
        "layoutJump"@.len() == 10,
        "layoutInit"@[6] == 'I',
        "layoutDone"@[6] == 'D',
        "layoutPrev"@[6] == 'P',
        "layoutJump"@[6] == 'J',
        "command"@.len() == 7,
        "shell"@.len() == 5,
        "stopShell"@.len() == 9,
        "videoPlay"@.len() == 9,
        "videoStop"@.len() == 9,
        "stopShell"@[5] == 'h',
        "videoPlay"@[5] == 'P',
        "videoStop"@[5] == 'S',
        "log"@.len() == 3,
{
    reveal_strlit("layoutInit");
    reveal_strlit("layoutDone");
    reveal_strlit("layoutPrev");
    reveal_strlit("layoutJump");
    reveal_strlit("command");
    reveal_strlit("shell");
    reveal_strlit("stopShell");
    reveal_strlit("videoPlay");
    reveal_strlit("videoStop");
    reveal_strlit("log");
}

proof fn lemma_free_of_line_breaks(s: Seq<char>)
    requires
        !s.contains('\n'),
    ensures
        free_of(s, set!['\n']),
{
    assert forall|i: int| 0 <= i < s.len() implies !set!['\n'].contains(#[trigger] s[i]) by {
        if s[i] == '\n' {
            assert(s.contains('\n'));
        }
    }
}

/// The arguments that arrive are those that were posted.
proof fn lemma_arguments_arrive(c: Call)
    requires
        is_plain(c),
    ensures
        arguments(body_of(c)) == posted(c) || (c == Call::Log(seq![]) && arguments(body_of(c)).len()
            == 0),
{
    let args = posted(c);
    assert forall|i: int| 0 <= i < args.len() implies free_of(#[trigger] args[i], set!['\n']) by {
        match c {
            Call::LayoutInit { id, width, height } => {
                lemma_decimal_on_the_wire(id as int);
                lemma_decimal_on_the_wire(width as int);
                lemma_decimal_on_the_wire(height as int);
            },
            Call::LayoutDone { id } => {
                lemma_decimal_on_the_wire(id as int);
            },
            Call::LayoutPrev { id } => {
                lemma_decimal_on_the_wire(id as int);
            },
            Call::LayoutJump { id, target } => {
                lemma_decimal_on_the_wire(id as int);
                lemma_decimal_on_the_wire(target as int);
            },
            Call::Command(code) => {
                lemma_free_of_line_breaks(code);
            },
            Call::Shell(cmd, _) => {
                lemma_free_of_line_breaks(cmd);
                lemma_decimal_on_the_wire(0);
                lemma_decimal_on_the_wire(1);
            },
            Call::StopShell(mode) => {
                lemma_decimal_on_the_wire(mode as int);
            },
            Call::VideoPlay { mid, uri, x, y, w, h, muted } => {
                lemma_free_of_line_breaks(mid);
                lemma_free_of_line_breaks(uri);
                lemma_decimal_on_the_wire(x as int);
                lemma_decimal_on_the_wire(y as int);
                lemma_decimal_on_the_wire(w as int);
                lemma_decimal_on_the_wire(h as int);
                lemma_decimal_on_the_wire(0);
                lemma_decimal_on_the_wire(1);
            },
            Call::VideoStop { mid } => {
                lemma_free_of_line_breaks(mid);
            },
            Call::Log(line) => {
                lemma_free_of_line_breaks(line);
            },
        }
    }
    law_split_undoes_join(args, '\n');
    match c {
        Call::LayoutDone { id } => {
            lemma_decimal_on_the_wire(id as int);
        },
        Call::LayoutPrev { id } => {
            lemma_decimal_on_the_wire(id as int);
        },
        Call::StopShell(mode) => {
            lemma_decimal_on_the_wire(mode as int);
        },
        Call::Log(line) => {
            if line.len() == 0 {
                assert(line =~= seq![]);
            }
        },
        _ => {},
    }
}

/// A call arrives as it was made: what the shim posts for a plain call is
/// parsed as that call.
pub proof fn law_call_arrives(c: Call)
    requires
        is_plain(c),
    ensures
        parsed(url_of(c), body_of(c)) == Some(c),
{
    let method = method_of(c);
    assert(url_of(c).subrange(0, BRIDGE_PREFIX@.len() as int) =~= BRIDGE_PREFIX@);
    assert(url_of(c).skip(BRIDGE_PREFIX@.len() as int) =~= method);
    lemma_arguments_arrive(c);
    lemma_methods_differ();
    let args = arguments(body_of(c));
    match c {
        Call::LayoutInit { id, width, height } => {
            lemma_number_arrives(args, 0, id);
            lemma_pixels_arrive(args, 1, width);
            lemma_pixels_arrive(args, 2, height);
        },
        Call::LayoutDone { id } => {
            lemma_number_arrives(args, 0, id);
        },
        Call::LayoutPrev { id } => {
            lemma_number_arrives(args, 0, id);
        },
        Call::LayoutJump { id, target } => {
            lemma_number_arrives(args, 0, id);
            lemma_number_arrives(args, 1, target);
        },
        Call::Command(_) => {},
        Call::Shell(_, with_shell) => {
            lemma_flag_arrives(args, 1, with_shell);
        },
        Call::StopShell(mode) => {
            lemma_number_arrives(args, 0, mode as i64);
        },
        Call::VideoPlay { mid, uri, x, y, w, h, muted } => {
            lemma_pixels_arrive(args, 2, x);
            lemma_pixels_arrive(args, 3, y);
            lemma_pixels_arrive(args, 4, w);
            lemma_pixels_arrive(args, 5, h);
            lemma_flag_arrives(args, 6, muted);
        },
        Call::VideoStop { .. } => {},
        Call::Log(line) => {
            assert(join(args, " "@) =~= line);
        },
    }
}

/// A kill mode that was parsed is one of the three there are, whatever was
/// asked for.
pub proof fn law_kill_mode_is_clamped(path: Seq<char>, body: Seq<char>)
    ensures
        parsed(path, body) matches Some(Call::StopShell(mode)) ==> mode <= 2,
{
}

/// Only requests under the bridge's own prefix are calls.
pub proof fn law_other_paths_are_no_calls(path: Seq<char>, body: Seq<char>)
    ensures
        parsed(path, body) is Some ==> BRIDGE_PREFIX@.is_prefix_of(path),
{
}

proof fn lemma_shim_path_and_transport()
    ensures
        QT_TRANSPORT_SRC@.len() > 0,
        BRIDGE_SCRIPT_PATH@.len() >= 2,
        forall|j: int|
            0 <= j < BRIDGE_SCRIPT_PATH@.len() ==> #[trigger] BRIDGE_SCRIPT_PATH@[j]
                != QT_TRANSPORT_SRC@[0],
        forall|t: int|
            0 <= t < QT_TRANSPORT_SRC@.len() && #[trigger] QT_TRANSPORT_SRC@[t]
                == BRIDGE_SCRIPT_PATH@[0] ==> t + 1 < QT_TRANSPORT_SRC@.len() && QT_TRANSPORT_SRC@[t
                + 1] != BRIDGE_SCRIPT_PATH@[1],
{
    reveal_strlit("qrc:///qtwebchannel/qwebchannel.js");
    reveal_strlit("/arexibo-bridge.js");
}

/// A rewritten layout does not ask for Qt's transport any more.
pub proof fn law_rewriting_removes_the_transport(html: Seq<char>)
    ensures
        !occurs(rewritten(html), QT_TRANSPORT_SRC@),
{
    lemma_shim_path_and_transport();
    law_replace_leaves_no_occurrence(html, QT_TRANSPORT_SRC@, BRIDGE_SCRIPT_PATH@);
}

/// A document that does not ask for Qt's transport is left as it is.
pub proof fn law_rewriting_leaves_other_documents(html: Seq<char>)
    requires
        !occurs(html, QT_TRANSPORT_SRC@),
    ensures
        rewritten(html) == html,
{
    lemma_shim_path_and_transport();
    law_replace_without_occurrence(html, QT_TRANSPORT_SRC@, BRIDGE_SCRIPT_PATH@);
}

/// Rewriting twice does no more than rewriting once.
pub proof fn law_rewriting_twice_is_rewriting_once(html: Seq<char>)
    ensures
        rewritten(rewritten(html)) == rewritten(html),
{
    law_rewriting_removes_the_transport(html);
    law_rewriting_leaves_other_documents(rewritten(html));
}

} // verus!
