//! Laws that relate command resolution, flag parsing and the resulting
//! context.
use vstd::prelude::*;
use crate::command::{Command, Flag, FlagKind};
use crate::dispatch::{names, resolve, App, Parsed};
use crate::text::{contains_seq, dashed, double_dashed};
use crate::tokens::{
    empty_tally, long_match, record, scan, short_scan, step, take_input, take_opt, CliError,
    Tally,
};

verus! {

/// No registered command other than the `k`-th carries its identity or its
/// alias.
pub open spec fn names_unique<T>(cmds: Seq<Command<T>>, k: int) -> bool {
    forall|j: int|
        0 <= j < cmds.len() && j != k ==> {
            &&& !names(cmds[j], cmds[k].ident@)
            &&& (cmds[k].alias is Some ==> !names(cmds[j], cmds[k].alias->0@))
        }
}

proof fn lemma_resolve_first<T>(cmds: Seq<Command<T>>, tok: Seq<char>, m: int, k: int)
    requires
        0 <= m <= k < cmds.len(),
        names(cmds[k], tok),
        forall|j: int| m <= j < k ==> !names(#[trigger] cmds[j], tok),
    ensures
        resolve(cmds, tok, m) == Some(k),
    decreases k - m,
{
    if m < k {
        lemma_resolve_first(cmds, tok, m + 1, k);
    }
}

/// Resolving a registered command by its identity or by its alias selects
/// that same command, provided no other command carries either name.
pub proof fn law_ident_and_alias_select_same<T>(app: App<T>, k: int)
    requires
        0 <= k < app.cmds@.len(),
        names_unique(app.cmds@, k),
    ensures
        resolve(app.cmds@, app.cmds@[k].ident@, 0) == Some(k),
        app.cmds@[k].alias is Some ==> resolve(app.cmds@, app.cmds@[k].alias->0@, 0) == resolve(
            app.cmds@,
            app.cmds@[k].ident@,
            0,
        ),
{
    let cmds = app.cmds@;
    lemma_resolve_first(cmds, cmds[k].ident@, 0, k);
    if cmds[k].alias is Some {
        lemma_resolve_first(cmds, cmds[k].alias->0@, 0, k);
    }
}

/// The long form of a flag: `--<ident>`.
pub open spec fn long_form(f: Flag) -> Seq<char> {
    seq!['-', '-'] + f.ident@
}

/// The short form of a flag: `-<alias>`.
pub open spec fn short_form(f: Flag) -> Seq<char> {
    seq!['-'] + f.alias->0@
}

/// `form` names the `k`-th flag, long or short, and no other flag's name
/// occurs in it, so that only that flag can match it.
pub open spec fn names_only(fl: Seq<Flag>, k: int, form: Seq<char>) -> bool {
    ||| {
        &&& form == long_form(fl[k])
        &&& forall|j: int| 0 <= j < k ==> !contains_seq(form, #[trigger] fl[j].ident@)
    }
    ||| {
        &&& fl[k].alias is Some
        &&& !dashed(fl[k].alias->0@)
        &&& form == short_form(fl[k])
        &&& forall|j: int|
            0 <= j < fl.len() && j != k && (#[trigger] fl[j].alias) is Some ==> !contains_seq(
                form,
                fl[j].alias->0@,
            )
    }
}

/// The tokens that supply the flag `f` by `form`: the form, followed by the
/// value `v` when `f` is an input flag.
pub open spec fn supply(f: Flag, form: Seq<char>, v: Seq<char>) -> Seq<Seq<char>> {
    if f.kind == FlagKind::InputFlag {
        seq![form, v]
    } else {
        seq![form]
    }
}

/// What supplying `f` records: its value for an input flag, presence alone
/// for an option flag.
pub open spec fn supplied_value(f: Flag, v: Seq<char>) -> Option<Seq<char>> {
    if f.kind == FlagKind::InputFlag {
        Some(v)
    } else {
        None
    }
}

proof fn lemma_long_match_first(fl: Seq<Flag>, t: Seq<char>, m: int, k: int)
    requires
        0 <= m <= k < fl.len(),
        contains_seq(t, fl[k].ident@),
        forall|j: int| 0 <= j < k ==> !contains_seq(t, #[trigger] fl[j].ident@),
    ensures
        long_match(fl, t, m) == Some(k),
    decreases k - m,
{
    if m < k {
        lemma_long_match_first(fl, t, m + 1, k);
    }
}

proof fn lemma_short_scan_rest(fl: Seq<Flag>, args: Seq<Seq<char>>, i: int, m: int, st: Tally)
    requires
        0 <= i < args.len(),
        m >= 0,
        forall|j: int|
            m <= j < fl.len() && (#[trigger] fl[j].alias) is Some ==> !contains_seq(
                args[i],
                fl[j].alias->0@,
            ),
    ensures
        short_scan(fl, args, i, m, st) == Ok::<(Tally, bool), CliError>((st, false)),
    decreases fl.len() - m,
{
    if m < fl.len() {
        lemma_short_scan_rest(fl, args, i, m + 1, st);
    }
}

proof fn lemma_short_scan_to(
    fl: Seq<Flag>,
    args: Seq<Seq<char>>,
    i: int,
    m: int,
    k: int,
    st: Tally,
)
    requires
        0 <= i < args.len(),
        0 <= m <= k < fl.len(),
        forall|j: int|
            m <= j < k && (#[trigger] fl[j].alias) is Some ==> !contains_seq(
                args[i],
                fl[j].alias->0@,
            ),
    ensures
        short_scan(fl, args, i, m, st) == short_scan(fl, args, i, k, st),
    decreases k - m,
{
    if m < k {
        lemma_short_scan_to(fl, args, i, m + 1, k, st);
    }
}

/// A token that names the `k`-th flag alone has the effect of that flag.
proof fn lemma_step_names_only(fl: Seq<Flag>, args: Seq<Seq<char>>, i: int, k: int, st: Tally)
    requires
        0 <= i < args.len(),
        0 <= k < fl.len(),
        names_only(fl, k, args[i]),
    ensures
        step(fl, args, i, st) == if fl[k].kind == FlagKind::InputFlag {
            take_input(args, i, fl[k], st)
        } else {
            take_opt(i, fl[k], st)
        },
{
    let t = args[i];
    let f = fl[k];
    if t == long_form(f) {
        assert(t.subrange(2, 2 + f.ident@.len() as int) =~= f.ident@);
        assert(double_dashed(t));
        lemma_long_match_first(fl, t, 0, k);
    } else {
        let a = f.alias->0@;
        assert(t.subrange(1, 1 + a.len() as int) =~= a);
        assert(dashed(t));
        assert(!double_dashed(t)) by {
            if t.len() > 1 {
                assert(t[1] == a[0]);
            }
        }
        lemma_short_scan_to(fl, args, i, 0, k, st);
        if f.kind != FlagKind::InputFlag {
            match take_opt(i, f, st) {
                Err(e) => {},
                Ok((st2, c)) => {
                    lemma_short_scan_rest(fl, args, i, k + 1, st2);
                },
            }
        }
    }
}

/// Supplying a flag by a form that names it alone records it: an input flag
/// with the token that follows, an option flag as present without a value.
/// This holds after any tokens already parsed into `st`, provided they did
/// not supply that flag; nothing else changes.
pub proof fn law_supplied_flag_is_recorded(
    fl: Seq<Flag>,
    k: int,
    head: Seq<Seq<char>>,
    st: Tally,
    form: Seq<char>,
    v: Seq<char>,
)
    requires
        0 <= k < fl.len(),
        names_only(fl, k, form),
        !dashed(v),
        !st.flags.contains_key(fl[k].ident@),
    ensures
        scan(fl, head + supply(fl[k], form, v), head.len() as int, st) == Ok::<Tally, CliError>(
            record(st, fl[k].ident@, supplied_value(fl[k], v)),
        ),
{
    let args = head + supply(fl[k], form, v);
    let n = head.len() as int;
    assert(args[n] == form);
    assert(fl[k].kind == FlagKind::InputFlag ==> args[n + 1] == v);
    lemma_step_names_only(fl, args, n, k, st);
    let next: int = if fl[k].kind == FlagKind::InputFlag {
        n + 2
    } else {
        n + 1
    };
    let done = record(st, fl[k].ident@, supplied_value(fl[k], v));
    assert(scan(fl, args, next, done) == Ok::<Tally, CliError>(done));
}

/// Supplying the same flag twice is rejected at its second occurrence,
/// whichever of its forms each occurrence uses.
pub proof fn law_second_supply_rejected(
    fl: Seq<Flag>,
    k: int,
    head: Seq<Seq<char>>,
    st: Tally,
    form1: Seq<char>,
    v1: Seq<char>,
    form2: Seq<char>,
    v2: Seq<char>,
)
    requires
        0 <= k < fl.len(),
        names_only(fl, k, form1),
        names_only(fl, k, form2),
        !dashed(v1),
        !dashed(v2),
        !st.flags.contains_key(fl[k].ident@),
        head.len() + supply(fl[k], form1, v1).len() <= usize::MAX,
    ensures
        scan(
            fl,
            head + supply(fl[k], form1, v1) + supply(fl[k], form2, v2),
            head.len() as int,
            st,
        ) == Err::<Tally, CliError>(
            CliError::DuplicateFlagAssignment((head.len() + supply(fl[k], form1, v1).len()) as usize),
        ),
{
    let first = supply(fl[k], form1, v1);
    let args = head + first + supply(fl[k], form2, v2);
    let h = head.len() as int;
    let n = h + first.len();
    let st1 = record(st, fl[k].ident@, supplied_value(fl[k], v1));
    assert(args[h] == form1);
    assert(fl[k].kind == FlagKind::InputFlag ==> args[h + 1] == v1);
    lemma_step_names_only(fl, args, h, k, st);
    assert(step(fl, args, h, st) == Ok::<(Tally, bool), CliError>(
        (st1, fl[k].kind == FlagKind::InputFlag),
    ));
    assert(args[n] == form2);
    assert(fl[k].kind == FlagKind::InputFlag ==> args[n + 1] == v2);
    lemma_step_names_only(fl, args, n, k, st1);
    assert(st1.flags.contains_key(fl[k].ident@));
    let dup = Err::<Tally, CliError>(CliError::DuplicateFlagAssignment(n as usize));
    assert(step(fl, args, n, st1) == Err::<(Tally, bool), CliError>(
        CliError::DuplicateFlagAssignment(n as usize),
    ));
    assert(scan(fl, args, n, st1) == dup);
    assert(scan(fl, args, h, st) == dup);
}

/// A command line that names a registered command and then supplies one of
/// its flags, by a form that names that flag alone, runs that command with
/// the flag recorded: with its value for an input flag, as present for an
/// option flag.
pub proof fn law_command_line_records_flag<T>(
    app: App<T>,
    k: int,
    j: int,
    form: Seq<char>,
    v: Seq<char>,
)
    requires
        0 <= k < app.cmds@.len(),
        names_unique(app.cmds@, k),
        0 <= j < app.cmds@[k].flags@.len(),
        names_only(app.cmds@[k].flags@, j, form),
        !dashed(v),
    ensures
        ({
            let f = app.cmds@[k].flags@[j];
            app.parse_spec(seq![app.cmds@[k].ident@] + supply(f, form, v)) == Ok::<
                Parsed,
                CliError,
            >(
                Parsed {
                    target: Some(k),
                    tally: record(empty_tally(), f.ident@, supplied_value(f, v)),
                    is_default: false,
                },
            )
        }),
{
    let fl = app.cmds@[k].flags@;
    let head = seq![app.cmds@[k].ident@];
    let args = head + supply(fl[j], form, v);
    assert(args[0] == app.cmds@[k].ident@);
    lemma_resolve_first(app.cmds@, app.cmds@[k].ident@, 0, k);
    law_supplied_flag_is_recorded(fl, j, head, empty_tally(), form, v);
}

/// Tokens that do not start with `-` are all positional: they are appended,
/// in order, after the positional arguments already gathered, and no flag is
/// recorded.
pub proof fn law_plain_tokens_are_positional(fl: Seq<Flag>, args: Seq<Seq<char>>, st: Tally)
    requires
        forall|i: int| 0 <= i < args.len() ==> !dashed(#[trigger] args[i]),
    ensures
        scan(fl, args, 0, st) == Ok::<Tally, CliError>(
            Tally { positional: st.positional + args, flags: st.flags },
        ),
{
    lemma_plain_from(fl, args, 0, st);
    assert(args.subrange(0, args.len() as int) =~= args);
}

proof fn lemma_plain_from(fl: Seq<Flag>, args: Seq<Seq<char>>, i: int, st: Tally)
    requires
        0 <= i <= args.len(),
        forall|m: int| 0 <= m < args.len() ==> !dashed(#[trigger] args[m]),
    ensures
        scan(fl, args, i, st) == Ok::<Tally, CliError>(
            Tally { positional: st.positional + args.subrange(i, args.len() as int), flags: st.flags },
        ),
    decreases args.len() - i,
{
    if i == args.len() {
        assert(st.positional + args.subrange(i, args.len() as int) =~= st.positional);
    } else {
        let st2 = Tally { positional: st.positional.push(args[i]), flags: st.flags };
        lemma_plain_from(fl, args, i + 1, st2);
        assert(st2.positional + args.subrange(i + 1, args.len() as int) =~= st.positional
            + args.subrange(i, args.len() as int));
    }
}

/// An empty command line, with a default command registered, runs the
/// default command with no positional argument, no flag, and `is_default`
/// set.
pub proof fn law_empty_line_runs_default<T>(app: App<T>)
    requires
        app.default is Some,
    ensures
        app.parse_spec(Seq::empty()) == Ok::<Parsed, CliError>(
            Parsed { target: None, tally: empty_tally(), is_default: true },
        ),
        empty_tally().positional.len() == 0,
{
}

} // verus!
