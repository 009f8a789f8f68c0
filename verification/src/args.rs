//! Rewriting of the raw command line before it is parsed: `privacy <category>
//! <target>` is short for `privacy get <category> <target>`, and
//! `privacy upsert ... --key-<name> <value>` is short for
//! `privacy upsert ... --key <name>=<value>`.

use vstd::prelude::*;

use crate::text::contains_char;
use crate::text::has_prefix;
use crate::text::starts_with_char;
use crate::text::starts_with_str;
use crate::text::str_equal;

verus! {

/// A global option that is followed by its value.
pub open spec fn is_valued_global_flag(t: Seq<char>) -> bool {
    ||| t == "--output"@
    ||| t == "-o"@
    ||| t == "--compact"@
    ||| t == "--account"@
    ||| t == "--user"@
    ||| t == "--agent-id"@
}

/// A global option that stands alone.
pub open spec fn is_bare_global_flag(t: Seq<char>) -> bool {
    ||| t == "--sudo"@
    ||| t == "--progress"@
    ||| t == "--no-progress"@
    ||| t == "--verbose"@
    ||| t == "-v"@
}

/// A token that starts with `-`.
pub open spec fn is_dash_token(t: Seq<char>) -> bool {
    t.len() > 0 && t[0] == '-'
}

/// The position of the command among `args` from position `i` on: global options
/// (with their values) and any other dash tokens are stepped over.
pub open spec fn command_index_from(args: Seq<Seq<char>>, i: int) -> Option<int>
    decreases args.len() - i,
{
    if i < 0 || i >= args.len() {
        None
    } else if is_valued_global_flag(args[i]) {
        if i + 2 >= args.len() {
            None
        } else {
            command_index_from(args, i + 2)
        }
    } else if is_bare_global_flag(args[i]) || is_dash_token(args[i]) {
        command_index_from(args, i + 1)
    } else {
        Some(i)
    }
}

/// The position of the command: the first token after the program name that is
/// neither an option nor the value of a global option.
pub open spec fn command_index(args: Seq<Seq<char>>) -> Option<int> {
    command_index_from(args, 1)
}

proof fn lemma_command_index_from_bounds(args: Seq<Seq<char>>, i: int)
    ensures
        command_index_from(args, i) matches Some(c) ==> i <= c < args.len() && 0 <= c,
    decreases args.len() - i,
{
    if 0 <= i < args.len() {
        if is_valued_global_flag(args[i]) {
            if i + 2 < args.len() {
                lemma_command_index_from_bounds(args, i + 2);
            }
        } else if is_bare_global_flag(args[i]) || is_dash_token(args[i]) {
            lemma_command_index_from_bounds(args, i + 1);
        }
    }
}

proof fn lemma_command_index_prefix(a: Seq<Seq<char>>, b: Seq<Seq<char>>, i: int, c: int)
    requires
        command_index_from(a, i) == Some(c),
        c < b.len(),
        forall|j: int| i <= j <= c ==> b[j] == a[j],
    ensures
        command_index_from(b, i) == Some(c),
    decreases a.len() - i,
{
    lemma_command_index_from_bounds(a, i);
    if is_valued_global_flag(a[i]) {
        lemma_command_index_from_bounds(a, i + 2);
        lemma_command_index_prefix(a, b, i + 2, c);
    } else if is_bare_global_flag(a[i]) || is_dash_token(a[i]) {
        lemma_command_index_from_bounds(a, i + 1);
        lemma_command_index_prefix(a, b, i + 1, c);
    }
}

proof fn lemma_global_flag_literals()
    ensures
        "--output"@.len() > 0 && "--output"@[0] == '-',
        "-o"@.len() > 0 && "-o"@[0] == '-',
        "--compact"@.len() > 0 && "--compact"@[0] == '-',
        "--account"@.len() > 0 && "--account"@[0] == '-',
        "--user"@.len() > 0 && "--user"@[0] == '-',
        "--agent-id"@.len() > 0 && "--agent-id"@[0] == '-',
        "--sudo"@.len() > 0 && "--sudo"@[0] == '-',
        "--progress"@.len() > 0 && "--progress"@[0] == '-',
        "--no-progress"@.len() > 0 && "--no-progress"@[0] == '-',
        "--verbose"@.len() > 0 && "--verbose"@[0] == '-',
        "-v"@.len() > 0 && "-v"@[0] == '-',
{
    reveal_strlit("--output");
    reveal_strlit("-o");
    reveal_strlit("--compact");
    reveal_strlit("--account");
    reveal_strlit("--user");
    reveal_strlit("--agent-id");
    reveal_strlit("--sudo");
    reveal_strlit("--progress");
    reveal_strlit("--no-progress");
    reveal_strlit("--verbose");
    reveal_strlit("-v");
}

/// The search for the command steps over each global option that takes a value
/// (`--output`, `-o`, `--compact`, `--account`, `--user`, `--agent-id`) together
/// with that value, and finds nothing when the value would be the last token;
/// it steps over any other token that starts with `-`; and it stops at the
/// first token that does not start with `-`.
pub proof fn law_command_search_steps_over_global_options(args: Seq<Seq<char>>, i: int)
    requires
        0 <= i < args.len(),
    ensures
        (args[i] == "--output"@ || args[i] == "-o"@ || args[i] == "--compact"@ || args[i]
            == "--account"@ || args[i] == "--user"@ || args[i] == "--agent-id"@) ==> (
        command_index_from(args, i) == if i + 2 < args.len() {
            command_index_from(args, i + 2)
        } else {
            None
        }),
        (args[i].len() > 0 && args[i][0] == '-' && !(args[i] == "--output"@ || args[i] == "-o"@
            || args[i] == "--compact"@ || args[i] == "--account"@ || args[i] == "--user"@
            || args[i] == "--agent-id"@)) ==> command_index_from(args, i) == command_index_from(
            args,
            i + 1,
        ),
        (args[i].len() == 0 || args[i][0] != '-') ==> command_index_from(args, i) == Some(i),
{
    lemma_global_flag_literals();
}

/// The command found always lies past the program name, is no option, and
/// every token before it past the program is an option or the value of a
/// global option.
pub proof fn law_command_index_is_first_non_option(args: Seq<Seq<char>>)
    ensures
        command_index(args) matches Some(c) ==> 1 <= c < args.len() && (args[c].len() == 0
            || args[c][0] != '-'),
{
    lemma_global_flag_literals();
    lemma_command_index_from_bounds(args, 1);
    lemma_command_found_is_no_option(args, 1);
}

proof fn lemma_command_found_is_no_option(args: Seq<Seq<char>>, i: int)
    ensures
        command_index_from(args, i) matches Some(c) ==> (args[c].len() == 0 || args[c][0] != '-'),
    decreases args.len() - i,
{
    lemma_global_flag_literals();
    if 0 <= i < args.len() {
        if is_valued_global_flag(args[i]) {
            if i + 2 < args.len() {
                lemma_command_found_is_no_option(args, i + 2);
            }
        } else if is_bare_global_flag(args[i]) || is_dash_token(args[i]) {
            lemma_command_found_is_no_option(args, i + 1);
        }
    }
}

/// The subcommands of `privacy`.
pub open spec fn is_privacy_subcommand_spec(t: Seq<char>) -> bool {
    ||| t == "categories"@
    ||| t == "list"@
    ||| t == "get"@
    ||| t == "upsert"@
    ||| t == "versions"@
    ||| t == "version"@
    ||| t == "activate"@
}

/// Finds the command among the arguments (position 0 is the program).
pub fn find_command_index(args: &[String]) -> (r: Option<usize>)
    ensures
        r matches Some(c) ==> command_index(args.deep_view()) == Some(c as int),
        r is None ==> command_index(args.deep_view()) is None,
{
    let ghost v = args.deep_view();
    let n = args.len();
    let mut i: usize = 1;
    while i < n
        invariant
            n == v.len(),
            v == args.deep_view(),
            1 <= i,
            command_index(v) == command_index_from(v, i as int),
        decreases n - i,
    {
        let token = args[i].as_str();
        assert(token@ == v[i as int]);
        if str_equal(token, "--output") || str_equal(token, "-o") || str_equal(token, "--compact")
            || str_equal(token, "--account") || str_equal(token, "--user") || str_equal(
            token,
            "--agent-id",
        ) {
            if n - i <= 2 {
                return None;
            }
            i = i + 2;
        } else if str_equal(token, "--sudo") || str_equal(token, "--progress") || str_equal(
            token,
            "--no-progress",
        ) || str_equal(token, "--verbose") || str_equal(token, "-v") {
            i = i + 1;
        } else if starts_with_char(token, '-') {
            i = i + 1;
        } else {
            return Some(i);
        }
    }
    None
}

/// Whether `token` is a subcommand of `privacy`.
pub fn is_privacy_subcommand(token: &str) -> (b: bool)
    ensures
        b == is_privacy_subcommand_spec(token@),
{
    str_equal(token, "categories") || str_equal(token, "list") || str_equal(token, "get")
        || str_equal(token, "upsert") || str_equal(token, "versions") || str_equal(
        token,
        "version",
    ) || str_equal(token, "activate")
}

/// `privacy` followed by something that is neither an option nor a subcommand
/// gets `get` inserted after it; every other command line is kept.
pub open spec fn privacy_get_shortcut(args: Seq<Seq<char>>) -> Seq<Seq<char>> {
    match command_index(args) {
        None => args,
        Some(c) => {
            if args[c] != "privacy"@ || c + 1 >= args.len() || is_dash_token(args[c + 1])
                || is_privacy_subcommand_spec(args[c + 1]) {
                args
            } else {
                args.insert(c + 1, "get"@)
            }
        },
    }
}

/// Inserts `get` after a `privacy` that is followed by a category.
pub fn preprocess_privacy_get_shortcut(args: Vec<String>) -> (r: Vec<String>)
    ensures
        r.deep_view() == privacy_get_shortcut(args.deep_view()),
{
    let ghost v = args.deep_view();
    let cmd_idx = match find_command_index(args.as_slice()) {
        Some(c) => c,
        None => {
            return args;
        },
    };
    proof {
        lemma_command_index_from_bounds(v, 1);
    }
    if !str_equal(args[cmd_idx].as_str(), "privacy") {
        return args;
    }
    if args.len() - cmd_idx <= 1 {
        return args;
    }
    let next = args[cmd_idx + 1].as_str();
    if starts_with_char(next, '-') || is_privacy_subcommand(next) {
        return args;
    }
    let mut out = args;
    out.insert(cmd_idx + 1, "get".to_owned());
    proof {
        assert(out.deep_view() =~= v.insert(cmd_idx + 1, "get"@));
    }
    out
}

/// `privacy <category> ...` after any global options gets `get` inserted right
/// after `privacy`, whatever option values come before it: for instance
/// `ov --agent-id <agent> privacy <category> <target>` becomes
/// `ov --agent-id <agent> privacy get <category> <target>`.
pub proof fn law_privacy_shortcut_after_valued_option(
    args: Seq<Seq<char>>,
    option: Seq<char>,
    value: Seq<char>,
    category: Seq<char>,
    rest: Seq<Seq<char>>,
    program: Seq<char>,
)
    requires
        option == "--output"@ || option == "-o"@ || option == "--compact"@ || option
            == "--account"@ || option == "--user"@ || option == "--agent-id"@,
        category.len() > 0 && category[0] != '-',
        !(category == "categories"@ || category == "list"@ || category == "get"@ || category
            == "upsert"@ || category == "versions"@ || category == "version"@ || category
            == "activate"@),
        args == seq![program, option, value, "privacy"@, category] + rest,
    ensures
        privacy_get_shortcut(args) == seq![program, option, value, "privacy"@, "get"@, category]
            + rest,
{
    lemma_global_flag_literals();
    reveal_strlit("privacy");
    assert(args[3] == "privacy"@);
    assert(args[4] == category);
    assert(command_index_from(args, 3) == Some(3int));
    assert(command_index_from(args, 1) == Some(3int));
    assert(args.insert(4, "get"@) =~= seq![program, option, value, "privacy"@, "get"@, category]
        + rest);
}

/// The `get` shortcut, once applied, has nothing left to do.
pub proof fn law_privacy_get_shortcut_idempotent(args: Seq<Seq<char>>)
    ensures
        privacy_get_shortcut(privacy_get_shortcut(args)) == privacy_get_shortcut(args),
{
    let once = privacy_get_shortcut(args);
    if once != args {
        let c = command_index(args)->0;
        lemma_command_index_from_bounds(args, 1);
        assert forall|j: int| 1 <= j <= c implies once[j] == args[j] by {}
        lemma_command_index_prefix(args, once, 1, c);
        assert(once[c + 1] == "get"@);
    }
}

/// The arguments from position `i` on, with the `--key-<name>` shorthand after
/// `privacy upsert` (at position `c`) written out and `--` separators dropped.
pub open spec fn expand_key_flags(args: Seq<Seq<char>>, c: int, i: int) -> Seq<Seq<char>>
    decreases args.len() - i,
{
    if i < 0 || i >= args.len() {
        Seq::empty()
    } else if i > c + 1 && args[i] == "--"@ {
        expand_key_flags(args, c, i + 1)
    } else if i > c + 1 && has_prefix(args[i], "--key-"@) {
        let suffix = args[i].skip(6);
        if suffix.len() == 0 {
            seq![args[i]] + expand_key_flags(args, c, i + 1)
        } else if suffix.contains('=') {
            seq!["--key"@, suffix] + expand_key_flags(args, c, i + 1)
        } else if i + 1 < args.len() {
            seq!["--key"@, suffix + "="@ + args[i + 1]] + expand_key_flags(args, c, i + 2)
        } else {
            seq![args[i]] + expand_key_flags(args, c, i + 1)
        }
    } else {
        seq![args[i]] + expand_key_flags(args, c, i + 1)
    }
}

/// `privacy upsert` command lines have their `--key-<name>` shorthand written
/// out; every other command line is kept.
pub open spec fn privacy_upsert_key_flags(args: Seq<Seq<char>>) -> Seq<Seq<char>> {
    match command_index(args) {
        None => args,
        Some(c) => {
            if args[c] != "privacy"@ || c + 1 >= args.len() || args[c + 1] != "upsert"@ {
                args
            } else {
                expand_key_flags(args, c, 0)
            }
        },
    }
}

proof fn lemma_key_prefix_len()
    ensures
        "--key-"@.len() == 6,
{
    reveal_strlit("--key-");
}

/// Writes out `--key-<name> <value>` (and `--key-<name>=<value>`) as
/// `--key <name>=<value>` after `privacy upsert`.
pub fn preprocess_privacy_upsert_key_flags(args: Vec<String>) -> (r: Vec<String>)
    ensures
        r.deep_view() == privacy_upsert_key_flags(args.deep_view()),
{
    let ghost v = args.deep_view();
    let cmd_idx = match find_command_index(args.as_slice()) {
        Some(c) => c,
        None => {
            return args;
        },
    };
    proof {
        lemma_command_index_from_bounds(v, 1);
        lemma_key_prefix_len();
    }
    if !str_equal(args[cmd_idx].as_str(), "privacy") {
        return args;
    }
    if args.len() - cmd_idx <= 1 || !str_equal(args[cmd_idx + 1].as_str(), "upsert") {
        return args;
    }
    let n = args.len();
    let c = cmd_idx;
    let mut converted: Vec<String> = Vec::new();
    let mut i: usize = 0;
    assert(converted.deep_view() + expand_key_flags(v, c as int, 0) =~= expand_key_flags(
        v,
        c as int,
        0,
    ));
    while i < n
        invariant
            n == v.len(),
            v == args.deep_view(),
            c < n,
            i <= n,
            "--key-"@.len() == 6,
            converted.deep_view() + expand_key_flags(v, c as int, i as int) == expand_key_flags(
                v,
                c as int,
                0,
            ),
        decreases n - i,
    {
        let arg = args[i].as_str();
        assert(arg@ == v[i as int]);
        let ghost before = converted.deep_view();
        if i > c + 1 && str_equal(arg, "--") {
            i = i + 1;
        } else if i > c + 1 && starts_with_str(arg, "--key-") {
            let len = arg.unicode_len();
            let suffix = arg.substring_char(6, len);
            assert(suffix@ =~= v[i as int].skip(6));
            if suffix.unicode_len() == 0 {
                converted.push(args[i].clone());
                proof {
                    assert(converted.deep_view() =~= before + seq![v[i as int]]);
                    assert(before + expand_key_flags(v, c as int, i as int) =~= converted.deep_view()
                        + expand_key_flags(v, c as int, i + 1));
                }
                i = i + 1;
            } else if contains_char(suffix, '=') {
                converted.push("--key".to_owned());
                converted.push(suffix.to_owned());
                proof {
                    assert(converted.deep_view() =~= before + seq!["--key"@, suffix@]);
                    assert(before + expand_key_flags(v, c as int, i as int) =~= converted.deep_view()
                        + expand_key_flags(v, c as int, i + 1));
                }
                i = i + 1;
            } else if n - i >= 2 {
                let next = args[i + 1].as_str();
                let mut pair = suffix.to_owned();
                pair.append("=");
                pair.append(next);
                converted.push("--key".to_owned());
                converted.push(pair);
                proof {
                    assert(next@ == v[i + 1]);
                    assert(converted.deep_view() =~= before + seq![
                        "--key"@,
                        suffix@ + "="@ + v[i + 1],
                    ]);
                    assert(before + expand_key_flags(v, c as int, i as int) =~= converted.deep_view()
                        + expand_key_flags(v, c as int, i + 2));
                }
                i = i + 2;
            } else {
                converted.push(args[i].clone());
                proof {
                    assert(converted.deep_view() =~= before + seq![v[i as int]]);
                    assert(before + expand_key_flags(v, c as int, i as int) =~= converted.deep_view()
                        + expand_key_flags(v, c as int, i + 1));
                }
                i = i + 1;
            }
        } else {
            converted.push(args[i].clone());
            proof {
                assert(converted.deep_view() =~= before + seq![v[i as int]]);
                assert(before + expand_key_flags(v, c as int, i as int) =~= converted.deep_view()
                    + expand_key_flags(v, c as int, i + 1));
            }
            i = i + 1;
        }
    }
    assert(converted.deep_view() =~= converted.deep_view() + expand_key_flags(v, c as int, n as int));
    converted
}

/// The `--key-<name>` shorthand written out over a whole list of arguments, as
/// it is done after `privacy upsert`.
pub open spec fn expand_all(s: Seq<Seq<char>>) -> Seq<Seq<char>>
    decreases s.len(),
{
    if s.len() == 0 {
        Seq::empty()
    } else if s[0] == "--"@ {
        expand_all(s.drop_first())
    } else if has_prefix(s[0], "--key-"@) {
        let suffix = s[0].skip(6);
        if suffix.len() == 0 {
            seq![s[0]] + expand_all(s.drop_first())
        } else if suffix.contains('=') {
            seq!["--key"@, suffix] + expand_all(s.drop_first())
        } else if s.len() >= 2 {
            seq!["--key"@, suffix + "="@ + s[1]] + expand_all(s.skip(2))
        } else {
            seq![s[0]] + expand_all(s.drop_first())
        }
    } else {
        seq![s[0]] + expand_all(s.drop_first())
    }
}

proof fn lemma_expand_tail(args: Seq<Seq<char>>, c: int, i: int)
    requires
        0 <= c,
        c + 2 <= i <= args.len(),
        "--key-"@.len() == 6,
    ensures
        expand_key_flags(args, c, i) == expand_all(args.skip(i)),
    decreases args.len() - i,
{
    let t = args.skip(i);
    if i < args.len() {
        assert(t[0] == args[i]);
        assert(t.drop_first() =~= args.skip(i + 1));
        lemma_expand_tail(args, c, i + 1);
        if i + 2 <= args.len() {
            assert(t.skip(2) =~= args.skip(i + 2));
            assert(t[1] == args[i + 1]);
            lemma_expand_tail(args, c, i + 2);
        }
    } else {
        assert(t =~= Seq::<Seq<char>>::empty());
    }
}

proof fn lemma_expand_head(args: Seq<Seq<char>>, c: int, i: int)
    requires
        0 <= i <= c + 2 <= args.len(),
    ensures
        expand_key_flags(args, c, i) == args.subrange(i, c + 2) + expand_key_flags(args, c, c + 2),
    decreases c + 2 - i,
{
    if i < c + 2 {
        lemma_expand_head(args, c, i + 1);
        assert(seq![args[i]] + args.subrange(i + 1, c + 2) =~= args.subrange(i, c + 2));
    } else {
        assert(args.subrange(i, c + 2) =~= Seq::<Seq<char>>::empty());
    }
}

proof fn lemma_key_prefix_facts()
    ensures
        "--key-"@.len() == 6,
        "--key"@.len() == 5,
        "--"@.len() == 2,
        "--"@[0] == '-' && "--"@[1] == '-',
        "--key---key-"@ == "--key-"@ + "--key-"@,
        !"--key-"@.contains('='),
        "--key"@ != "--"@,
{
    reveal_strlit("--key-");
    reveal_strlit("--key");
    reveal_strlit("--");
    reveal_strlit("--key---key-");
    assert("--key---key-"@ =~= "--key-"@ + "--key-"@);
    assert("--key"@.len() != "--"@.len());
}

proof fn lemma_not_doubled_key(t: Seq<char>)
    requires
        has_prefix(t, "--key-"@),
        !has_prefix(t, "--key---key-"@),
        "--key-"@.len() == 6,
        "--key---key-"@ == "--key-"@ + "--key-"@,
    ensures
        !has_prefix(t.skip(6), "--key-"@),
{
    if has_prefix(t.skip(6), "--key-"@) {
        assert(t.take(12) =~= t.take(6) + t.skip(6).take(6));
    }
}

proof fn lemma_pair_not_key(suffix: Seq<char>, value: Seq<char>)
    requires
        suffix.len() > 0,
        !has_prefix(suffix, "--key-"@),
        !"--key-"@.contains('='),
        "--key-"@.len() == 6,
        "--"@.len() == 2,
        "--"@[0] == '-' && "--"@[1] == '-',
    ensures
        !has_prefix(suffix + "="@ + value, "--key-"@),
        suffix + "="@ + value != "--"@,
{
    reveal_strlit("=");
    let pair = suffix + "="@ + value;
    assert(pair[suffix.len() as int] == '=');
    if has_prefix(pair, "--key-"@) {
        if suffix.len() >= 6 {
            assert(suffix.take(6) =~= pair.take(6));
        } else {
            assert(pair.take(6)[suffix.len() as int] == '=');
            assert("--key-"@[suffix.len() as int] == '=');
        }
    }
}

proof fn lemma_expand_all_idempotent(s: Seq<Seq<char>>)
    requires
        forall|i: int| 0 <= i < s.len() ==> !has_prefix(#[trigger] s[i], "--key---key-"@),
    ensures
        expand_all(expand_all(s)) == expand_all(s),
    decreases s.len(),
{
    lemma_key_prefix_facts();
    if s.len() > 0 {
        let rest = s.drop_first();
        assert forall|i: int| 0 <= i < rest.len() implies !has_prefix(
            #[trigger] rest[i],
            "--key---key-"@,
        ) by {
            assert(rest[i] == s[i + 1]);
        }
        lemma_expand_all_idempotent(rest);
        let r = expand_all(rest);
        assert(!has_prefix("--key"@, "--key-"@));
        if s[0] == "--"@ {
            assert(expand_all(s) == r);
        } else if has_prefix(s[0], "--key-"@) {
            let suffix = s[0].skip(6);
            assert(!has_prefix(s[0], "--key---key-"@));
            if suffix.len() == 0 {
                let out = seq![s[0]] + r;
                assert(expand_all(s) == out);
                assert(out[0] == s[0]);
                assert(out.drop_first() =~= r);
                assert(expand_all(out) == seq![s[0]] + expand_all(r));
            } else if suffix.contains('=') {
                lemma_not_doubled_key(s[0]);
                let out = seq!["--key"@, suffix] + r;
                assert(expand_all(s) == out);
                let inner = seq![suffix] + r;
                assert(out[0] == "--key"@);
                assert(out.drop_first() =~= inner);
                assert(expand_all(out) == seq!["--key"@] + expand_all(inner));
                if suffix == "--"@ {
                    assert(!"--"@.contains('='));
                }
                assert(inner[0] == suffix);
                assert(inner.drop_first() =~= r);
                assert(expand_all(inner) == seq![suffix] + expand_all(r));
                assert(expand_all(out) =~= out);
            } else if s.len() >= 2 {
                lemma_not_doubled_key(s[0]);
                let tail = s.skip(2);
                assert forall|i: int| 0 <= i < tail.len() implies !has_prefix(
                    #[trigger] tail[i],
                    "--key---key-"@,
                ) by {
                    assert(tail[i] == s[i + 2]);
                }
                lemma_expand_all_idempotent(tail);
                let pair = suffix + "="@ + s[1];
                lemma_pair_not_key(suffix, s[1]);
                let r2 = expand_all(tail);
                let out = seq!["--key"@, pair] + r2;
                assert(expand_all(s) == out);
                let inner = seq![pair] + r2;
                assert(out[0] == "--key"@);
                assert(out.drop_first() =~= inner);
                assert(expand_all(out) == seq!["--key"@] + expand_all(inner));
                assert(inner[0] == pair);
                assert(inner.drop_first() =~= r2);
                assert(expand_all(inner) == seq![pair] + expand_all(r2));
                assert(expand_all(out) =~= out);
            } else {
                let out = seq![s[0]] + r;
                assert(expand_all(s) == out);
                assert(out[0] == s[0]);
                assert(out.drop_first() =~= r);
                assert(r.len() == 0);
                assert(out.len() == 1);
                assert(expand_all(out) == seq![s[0]] + expand_all(r));
            }
        } else {
            let out = seq![s[0]] + r;
            assert(expand_all(s) == out);
            assert(out[0] == s[0]);
            assert(out.drop_first() =~= r);
            assert(expand_all(out) == seq![s[0]] + expand_all(r));
        }
    }
}

/// Writing out the `--key-<name>` shorthand a second time changes nothing,
/// provided no argument starts with `--key---key-` (whose written-out form
/// would start with `--key-` again).
pub proof fn law_privacy_upsert_key_flags_idempotent(args: Seq<Seq<char>>)
    requires
        forall|i: int| 0 <= i < args.len() ==> !has_prefix(#[trigger] args[i], "--key---key-"@),
    ensures
        privacy_upsert_key_flags(privacy_upsert_key_flags(args)) == privacy_upsert_key_flags(args),
{
    let once = privacy_upsert_key_flags(args);
    if let Some(c) = command_index(args) {
        lemma_command_index_from_bounds(args, 1);
        if args[c] == "privacy"@ && c + 1 < args.len() && args[c + 1] == "upsert"@ {
            lemma_key_prefix_facts();
            let tail = args.skip(c + 2);
            lemma_expand_head(args, c, 0);
            lemma_expand_tail(args, c, c + 2);
            assert(once == args.subrange(0, c + 2) + expand_all(tail));
            assert forall|j: int| 1 <= j <= c implies once[j] == args[j] by {}
            lemma_command_index_prefix(args, once, 1, c);
            assert(once[c] == args[c] && once[c + 1] == args[c + 1]);
            assert forall|i: int| 0 <= i < tail.len() implies !has_prefix(
                #[trigger] tail[i],
                "--key---key-"@,
            ) by {
                assert(tail[i] == args[i + c + 2]);
            }
            lemma_expand_all_idempotent(tail);
            lemma_expand_head(once, c, 0);
            lemma_expand_tail(once, c, c + 2);
            assert(once.subrange(0, c + 2) =~= args.subrange(0, c + 2));
            assert(once.skip(c + 2) =~= expand_all(tail));
        }
    }
}

/// Both rewritings of the command line, the `get` shortcut first.
pub open spec fn privacy_args(args: Seq<Seq<char>>) -> Seq<Seq<char>> {
    privacy_upsert_key_flags(privacy_get_shortcut(args))
}

/// Rewrites the `privacy` shorthands of a command line.
pub fn preprocess_privacy_args(args: Vec<String>) -> (r: Vec<String>)
    ensures
        r.deep_view() == privacy_args(args.deep_view()),
{
    let args = preprocess_privacy_get_shortcut(args);
    preprocess_privacy_upsert_key_flags(args)
}

/// A command line whose command is not `privacy` passes through unchanged.
pub proof fn law_non_privacy_command_lines_pass_through(args: Seq<Seq<char>>)
    requires
        !(command_index(args) matches Some(c) && args[c] == "privacy"@),
    ensures
        privacy_args(args) == args,
{
}

} // verus!
