//! What each call of the page means, and what rewriting a layout puts where.

use crate::bridge::{arguments, call_of, number_at, parsed, pixels_at, rewritten, BridgeMsg, Call};
use crate::bridge_laws::method_of;
use crate::decimal::{number_i64, wrapped_i32};
use crate::split::{
    head_len, join, law_join_undoes_split, lemma_head_len, lemma_pieces_nonempty, pieces,
};
use crate::text::trimmed;
use crate::text_laws::law_replacement_stands_at_the_first_occurrence;
use vstd::prelude::*;

verus! {

/// Where a layout asks for Qt's transport, the rewritten layout asks for the
/// shim: what stands before the first place is kept, the path of the shim
/// stands in its stead, and what follows is rewritten in the same way.
pub proof fn law_rewriting_puts_the_shim_in_place(a: Seq<char>, b: Seq<char>)
    requires
        forall|j: int|
            0 <= j < a.len() ==> #[trigger] (a + "qrc:///qtwebchannel/qwebchannel.js"@
                + b).subrange(j, j + "qrc:///qtwebchannel/qwebchannel.js"@.len())
                != "qrc:///qtwebchannel/qwebchannel.js"@,
    ensures
        rewritten(a + "qrc:///qtwebchannel/qwebchannel.js"@ + b) == a + "/arexibo-bridge.js"@
            + rewritten(b),
{
    reveal_strlit("qrc:///qtwebchannel/qwebchannel.js");
    law_replacement_stands_at_the_first_occurrence(
        a,
        "qrc:///qtwebchannel/qwebchannel.js"@,
        b,
        "/arexibo-bridge.js"@,
    );
}

/// The arguments of a call are the lines of its body: none where it is empty,
/// and else texts without line breaks that make up the body, one to a line.
pub proof fn law_arguments_are_the_lines_of_the_body(body: Seq<char>)
    ensures
        arguments(body).len() == 0 <==> body.len() == 0,
        join(arguments(body), seq!['\n']) == body,
        forall|i: int|
            0 <= i < arguments(body).len() ==> !(#[trigger] arguments(body)[i]).contains('\n'),
{
    if body.len() > 0 {
        law_join_undoes_split(body, '\n');
        lemma_pieces_nonempty(body, set!['\n']);
        lemma_lines_hold_no_break(body);
    } else {
        assert(body =~= seq![]);
    }
}

proof fn lemma_lines_hold_no_break(s: Seq<char>)
    ensures
        forall|i: int|
            0 <= i < pieces(s, set!['\n']).len() ==> !(#[trigger] pieces(
                s,
                set!['\n'],
            )[i]).contains('\n'),
    decreases s.len(),
{
    let seps = set!['\n'];
    let n = head_len(s, seps) as int;
    lemma_head_len(s, seps);
    let all = pieces(s, seps);
    assert(!s.take(n).contains('\n')) by {
        if s.take(n).contains('\n') {
            let j = choose|j: int| 0 <= j < n && s.take(n)[j] == '\n';
            assert(!seps.contains(s.take(n)[j]));
        }
    }
    if n < s.len() {
        let rest = s.skip(n + 1);
        lemma_lines_hold_no_break(rest);
        assert forall|i: int| 0 <= i < all.len() implies !(#[trigger] all[i]).contains('\n') by {
            if i > 0 {
                assert(all[i] == pieces(rest, seps)[i - 1]);
            }
        }
    } else {
        assert(s.take(n) =~= s);
    }
}

/// Whether an argument is there and stands for this number, white space around
/// it aside.
pub open spec fn is_number(args: Seq<Seq<char>>, i: int, n: i64) -> bool {
    i < args.len() && number_i64(trimmed(args[i])) == Some(n)
}

/// Whether a length is the one that an argument gives: the low 32 bits of the
/// number, or zero where there is none.
pub open spec fn is_length(args: Seq<Seq<char>>, i: int, p: i32) -> bool {
    ||| exists|n: i64| #[trigger] is_number(args, i, n) && p == wrapped_i32(n as int)
    ||| p == 0 && forall|n: i64| !#[trigger] is_number(args, i, n)
}

proof fn lemma_lengths(args: Seq<Seq<char>>, i: int)
    ensures
        is_length(args, i, pixels_at(args, i)),
{
    match number_at(args, i) {
        Some(n) => {
            assert(is_number(args, i, n));
        },
        None => {
            assert forall|n: i64| !#[trigger] is_number(args, i, n) by {}
        },
    }
}

/// The calls about layouts carry the numbers in their arguments: the first is
/// the id, without which there is no call; a size that is missing is zero; and
/// a jump needs its target too.
pub proof fn law_layout_calls_carry_their_numbers(body: Seq<char>)
    ensures
        ({
            let args = arguments(body);
            let init = parsed("/arexibo/layoutInit"@, body);
            let done = parsed("/arexibo/layoutDone"@, body);
            let prev = parsed("/arexibo/layoutPrev"@, body);
            let jump = parsed("/arexibo/layoutJump"@, body);
            &&& forall|id: i64|
                {
                    &&& #[trigger] is_number(args, 0, id) ==> done == Some(Call::LayoutDone { id })
                        && prev == Some(Call::LayoutPrev { id })
                    &&& is_number(args, 0, id) ==> (init matches Some(
                        Call::LayoutInit { id: got, width, height },
                    ) && got == id && is_length(args, 1, width) && is_length(args, 2, height))
                }
            &&& forall|id: i64, target: i64| #[trigger]
                is_number(args, 0, id) && #[trigger] is_number(args, 1, target) ==> jump == Some(
                    Call::LayoutJump { id, target },
                )
            &&& (forall|id: i64| !#[trigger] is_number(args, 0, id)) ==> init is None && done is None
                && prev is None && jump is None
            &&& (forall|target: i64| !#[trigger] is_number(args, 1, target)) ==> jump is None
        }),
{
    let args = arguments(body);
    lemma_urls();
    lemma_lengths(args, 1);
    lemma_lengths(args, 2);
    if number_at(args, 0) is Some {
        assert(is_number(args, 0, number_at(args, 0)->0));
    }
    if number_at(args, 1) is Some {
        assert(is_number(args, 1, number_at(args, 1)->0));
    }
}

/// A command is the first argument as it stands, and without one there is no
/// call.
pub proof fn law_commands_are_the_first_argument(body: Seq<char>)
    ensures
        arguments(body).len() > 0 ==> parsed("/arexibo/command"@, body) == Some(
            Call::Command(arguments(body)[0]),
        ),
        arguments(body).len() == 0 ==> parsed("/arexibo/command"@, body) is None,
{
    lemma_urls();
}

/// A shell command is the first argument as it stands; it goes through a shell
/// exactly where there is a second argument and that is `1` or `true`, white
/// space around it aside.
pub proof fn law_shell_commands_and_their_flag(body: Seq<char>)
    ensures
        arguments(body).len() == 0 ==> parsed("/arexibo/shell"@, body) is None,
        arguments(body).len() == 1 ==> parsed("/arexibo/shell"@, body) == Some(
            Call::Shell(arguments(body)[0], false),
        ),
        arguments(body).len() > 1 ==> parsed("/arexibo/shell"@, body) == Some(
            Call::Shell(
                arguments(body)[0],
                trimmed(arguments(body)[1]) == seq!['1'] || trimmed(arguments(body)[1]) == seq![
                    't',
                    'r',
                    'u',
                    'e',
                ],
            ),
        ),
{
    lemma_urls();
    reveal_strlit("1");
    reveal_strlit("true");
    assert("1"@ =~= seq!['1']);
    assert("true"@ =~= seq!['t', 'r', 'u', 'e']);
}

/// Stopping a shell command is always a call. Its mode is the number asked for
/// where that is one of the three there are, the nearest of them where it is
/// not, and zero where there is no number.
pub proof fn law_stop_modes_are_the_nearest(body: Seq<char>, n: i64)
    ensures
        ({
            let args = arguments(body);
            let stop = parsed("/arexibo/stopShell"@, body);
            &&& stop matches Some(Call::StopShell(mode)) && mode <= 2
            &&& is_number(args, 0, n) && 0 <= n <= 2 ==> stop == Some(Call::StopShell(n as u8))
            &&& is_number(args, 0, n) && n > 2 ==> stop == Some(Call::StopShell(2))
            &&& is_number(args, 0, n) && n < 0 ==> stop == Some(Call::StopShell(0))
            &&& (forall|m: i64| !#[trigger] is_number(args, 0, m)) ==> stop == Some(
                Call::StopShell(0),
            )
        }),
{
    lemma_urls();
    let args = arguments(body);
    if number_at(args, 0) is Some {
        assert(is_number(args, 0, number_at(args, 0)->0));
    }
}

/// A video is named by its first two arguments as they stand, without which
/// there is no call; it is placed by the next four, and muted unless a seventh
/// argument says other than `1`.
pub proof fn law_videos_are_placed_by_their_arguments(body: Seq<char>)
    ensures
        ({
            let args = arguments(body);
            let play = parsed("/arexibo/videoPlay"@, body);
            &&& args.len() < 2 ==> play is None
            &&& args.len() >= 2 ==> {
                &&& play matches Some(Call::VideoPlay { mid, uri, x, y, w, h, muted })
                &&& mid == args[0]
                &&& uri == args[1]
                &&& is_length(args, 2, x)
                &&& is_length(args, 3, y)
                &&& is_length(args, 4, w)
                &&& is_length(args, 5, h)
                &&& args.len() < 7 ==> muted
                &&& args.len() >= 7 ==> muted == (trimmed(args[6]) == seq!['1'])
            }
            &&& args.len() > 0 ==> parsed("/arexibo/videoStop"@, body) == Some(
                Call::VideoStop { mid: args[0] },
            )
            &&& args.len() == 0 ==> parsed("/arexibo/videoStop"@, body) is None
        }),
{
    lemma_urls();
    let args = arguments(body);
    lemma_lengths(args, 2);
    lemma_lengths(args, 3);
    lemma_lengths(args, 4);
    lemma_lengths(args, 5);
    reveal_strlit("1");
    assert("1"@ =~= seq!['1']);
}

/// A line of diagnostics is always a call, and holds all the arguments with a
/// blank between every two.
pub proof fn law_log_lines_hold_all_arguments(body: Seq<char>)
    ensures
        parsed("/arexibo/log"@, body) == Some(Call::Log(join(arguments(body), seq![' ']))),
{
    lemma_urls();
    reveal_strlit(" ");
    assert(" "@ =~= seq![' ']);
}

/// Every call is posted to the method of its kind, right behind the prefix:
/// no other URL gives one.
pub proof fn law_calls_come_from_their_own_url(path: Seq<char>, body: Seq<char>)
    ensures
        parsed(path, body) matches Some(c) ==> path == "/arexibo/"@ + method_of(c),
{
    if parsed(path, body) is Some {
        let n = "/arexibo/"@.len() as int;
        assert(path =~= path.subrange(0, n) + path.skip(n));
        assert(path.subrange(0, n) == "/arexibo/"@);
    }
}

/// The URLs of the calls, cut into prefix and method; no two methods are the
/// same.
proof fn lemma_urls()
    ensures
        "/arexibo/"@.is_prefix_of("/arexibo/layoutInit"@),
        "/arexibo/layoutInit"@.skip("/arexibo/"@.len() as int) == "layoutInit"@,
        "/arexibo/"@.is_prefix_of("/arexibo/layoutDone"@),
        "/arexibo/layoutDone"@.skip("/arexibo/"@.len() as int) == "layoutDone"@,
        "/arexibo/"@.is_prefix_of("/arexibo/layoutPrev"@),
        "/arexibo/layoutPrev"@.skip("/arexibo/"@.len() as int) == "layoutPrev"@,
        "/arexibo/"@.is_prefix_of("/arexibo/layoutJump"@),
        "/arexibo/layoutJump"@.skip("/arexibo/"@.len() as int) == "layoutJump"@,
        "/arexibo/"@.is_prefix_of("/arexibo/command"@),
        "/arexibo/command"@.skip("/arexibo/"@.len() as int) == "command"@,
        "/arexibo/"@.is_prefix_of("/arexibo/shell"@),
        "/arexibo/shell"@.skip("/arexibo/"@.len() as int) == "shell"@,
        "/arexibo/"@.is_prefix_of("/arexibo/stopShell"@),
        "/arexibo/stopShell"@.skip("/arexibo/"@.len() as int) == "stopShell"@,
        "/arexibo/"@.is_prefix_of("/arexibo/videoPlay"@),
        "/arexibo/videoPlay"@.skip("/arexibo/"@.len() as int) == "videoPlay"@,
        "/arexibo/"@.is_prefix_of("/arexibo/videoStop"@),
        "/arexibo/videoStop"@.skip("/arexibo/"@.len() as int) == "videoStop"@,
        "/arexibo/"@.is_prefix_of("/arexibo/log"@),
        "/arexibo/log"@.skip("/arexibo/"@.len() as int) == "log"@,
        "layoutInit"@.len() == 10 && "layoutInit"@[6] == 'I',
        "layoutDone"@.len() == 10 && "layoutDone"@[6] == 'D',
        "layoutPrev"@.len() == 10 && "layoutPrev"@[6] == 'P',
        "layoutJump"@.len() == 10 && "layoutJump"@[6] == 'J',
        "command"@.len() == 7,
        "shell"@.len() == 5,
        "stopShell"@.len() == 9 && "stopShell"@[5] == 'h',
        "videoPlay"@.len() == 9 && "videoPlay"@[5] == 'P',
        "videoStop"@.len() == 9 && "videoStop"@[5] == 'S',
        "log"@.len() == 3,
{
    reveal_strlit("/arexibo/");
    reveal_strlit("/arexibo/layoutInit");
    reveal_strlit("/arexibo/layoutDone");
    reveal_strlit("/arexibo/layoutPrev");
    reveal_strlit("/arexibo/layoutJump");
    reveal_strlit("/arexibo/command");
    reveal_strlit("/arexibo/shell");
    reveal_strlit("/arexibo/stopShell");
    reveal_strlit("/arexibo/videoPlay");
    reveal_strlit("/arexibo/videoStop");
    reveal_strlit("/arexibo/log");
    reveal_strlit("layoutInit");
    reveal_strlit("layoutDone");
    reveal_strlit("layoutPrev");
    reveal_strlit("layoutJump");
    reveal_strlit("command");
    reveal_strlit("shell");
    reveal_strlit("stopShell");
    reveal_strlit("videoPlay");
    reveal_strlit("videoStop");
    reveal_strlit("log");
    let n = "/arexibo/"@.len() as int;
    assert("/arexibo/layoutInit"@.subrange(0, n) =~= "/arexibo/"@);
    assert("/arexibo/layoutInit"@.skip(n) =~= "layoutInit"@);
    assert("/arexibo/layoutDone"@.skip(n) =~= "layoutDone"@);
    assert("/arexibo/layoutPrev"@.skip(n) =~= "layoutPrev"@);
    assert("/arexibo/layoutJump"@.skip(n) =~= "layoutJump"@);
    assert("/arexibo/command"@.skip(n) =~= "command"@);
    assert("/arexibo/shell"@.skip(n) =~= "shell"@);
    assert("/arexibo/stopShell"@.skip(n) =~= "stopShell"@);
    assert("/arexibo/videoPlay"@.skip(n) =~= "videoPlay"@);
    assert("/arexibo/videoStop"@.skip(n) =~= "videoStop"@);
    assert("/arexibo/log"@.skip(n) =~= "log"@);
}

/// A message stands for the call of its kind, with its own numbers, flags and
/// texts.
pub proof fn law_messages_stand_for_their_calls(msg: BridgeMsg)
    ensures
        call_of(Some(msg)) == Some(msg@),
        call_of(None) is None,
        msg matches BridgeMsg::LayoutInit { id, width, height } ==> msg@ == (Call::LayoutInit {
            id,
            width,
            height,
        }),
        msg matches BridgeMsg::LayoutDone { id } ==> msg@ == (Call::LayoutDone { id }),
        msg matches BridgeMsg::LayoutPrev { id } ==> msg@ == (Call::LayoutPrev { id }),
        msg matches BridgeMsg::LayoutJump { id, target } ==> msg@ == (Call::LayoutJump {
            id,
            target,
        }),
        msg matches BridgeMsg::Command(code) ==> msg@ == Call::Command(code@),
        msg matches BridgeMsg::Shell(cmd, with_shell) ==> msg@ == Call::Shell(cmd@, with_shell),
        msg matches BridgeMsg::StopShell(mode) ==> msg@ == Call::StopShell(mode),
        msg matches BridgeMsg::VideoPlay { mid, uri, x, y, w, h, muted } ==> msg@ == (
        Call::VideoPlay { mid: mid@, uri: uri@, x, y, w, h, muted }),
        msg matches BridgeMsg::VideoStop { mid } ==> msg@ == (Call::VideoStop { mid: mid@ }),
        msg matches BridgeMsg::Log(line) ==> msg@ == Call::Log(line@),
{
}

} // verus!
