//! Pieces of the command handlers that shape what is sent to the server.

use vstd::prelude::*;

use crate::text::has_prefix;

verus! {

/// The time filter arguments for `after` and `before`, in that order.
pub open spec fn time_filter_params(after: Option<&str>, before: Option<&str>) -> Seq<Seq<char>> {
    let a = match after {
        Some(t) => seq!["--after "@ + t@],
        None => Seq::<Seq<char>>::empty(),
    };
    let b = match before {
        Some(t) => seq!["--before "@ + t@],
        None => Seq::<Seq<char>>::empty(),
    };
    a + b
}

/// Each bound yields its own parameter from its own text and nothing else: an
/// `--after` parameter appears exactly when `after` is given and carries it,
/// a `--before` parameter exactly when `before` is given and carries it, the
/// lower bound first.
pub proof fn law_time_filters_follow_their_bounds(after: Option<&str>, before: Option<&str>)
    ensures
        time_filter_params(after, before).len() == (if after is Some {
            1int
        } else {
            0int
        }) + (if before is Some {
            1int
        } else {
            0int
        }),
        forall|k: int|
            0 <= k < time_filter_params(after, before).len() ==> (has_prefix(
                #[trigger] time_filter_params(after, before)[k],
                "--before "@,
            ) <==> (before is Some && time_filter_params(after, before)[k] == "--before "@
                + before->0@)),
        forall|k: int|
            0 <= k < time_filter_params(after, before).len() ==> (has_prefix(
                #[trigger] time_filter_params(after, before)[k],
                "--after "@,
            ) <==> (after is Some && time_filter_params(after, before)[k] == "--after "@
                + after->0@)),
        after matches Some(a) ==> time_filter_params(after, before)[0] == "--after "@ + a@,
        before matches Some(b) ==> time_filter_params(after, before).last() == "--before "@ + b@,
{
    reveal_strlit("--before ");
    reveal_strlit("--after ");
    let r = time_filter_params(after, before);
    assert forall|k: int| 0 <= k < r.len() implies (has_prefix(#[trigger] r[k], "--before "@) <==> (
    before is Some && r[k] == "--before "@ + before->0@)) && (has_prefix(r[k], "--after "@) <==> (
    after is Some && r[k] == "--after "@ + after->0@)) by {
        if after is Some && k == 0 {
            let t = "--after "@ + after->0@;
            assert(r[k] == t);
            assert(t[2] == 'a');
            assert("--before "@[2] == 'b');
            if has_prefix(t, "--before "@) {
                assert(t.take(9)[2] == t[2]);
            }
            assert(t.take(8) =~= "--after "@);
            assert(t != "--before "@ + before->0@ || before is None) by {
                if before is Some {
                    assert(("--before "@ + before->0@)[2] == 'b');
                }
            }
        } else {
            let t = "--before "@ + before->0@;
            assert(before is Some);
            assert(r[k] == t);
            assert(t[2] == 'b');
            assert("--after "@[2] == 'a');
            if has_prefix(t, "--after "@) {
                assert(t.take(8)[2] == t[2]);
            }
            assert(t.take(9) =~= "--before "@);
            assert(t != "--after "@ + after->0@ || after is None) by {
                if after is Some {
                    assert(("--after "@ + after->0@)[2] == 'a');
                }
            }
        }
    }
}

/// Appends `--after <time>` and `--before <time>` for the bounds that are given.
pub fn append_time_filter_params(params: &mut Vec<String>, after: Option<&str>, before: Option<&str>)
    ensures
        final(params).deep_view() == old(params).deep_view() + time_filter_params(after, before),
        before is None ==> final(params).deep_view() == old(params).deep_view() + match after {
            Some(a) => seq!["--after "@ + a@],
            None => Seq::<Seq<char>>::empty(),
        },
{
    let ghost start = params.deep_view();
    if let Some(t) = after {
        let mut p = "--after ".to_owned();
        p.append(t);
        params.push(p);
    }
    let ghost mid = params.deep_view();
    if let Some(t) = before {
        let mut p = "--before ".to_owned();
        p.append(t);
        params.push(p);
    }
    assert(params.deep_view() =~= start + time_filter_params(after, before));
}

} // verus!
