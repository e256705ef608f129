//! Sorting the tokens of a command line into flag values and positional
//! arguments, against one command's declared flags.
use vstd::prelude::*;
use crate::command::{Flag, FlagKind};
use crate::context::{Context, FlagRes};
use crate::text::{
    contains_seq, contains_text, dashed, double_dashed, is_dashed, is_double_dashed,
    is_short_form,
};

verus! {

/// Why a command line was rejected.
#[derive(PartialEq, Eq, Structural, Clone, Copy, Debug)]
pub enum CliError {
    /// The argument list is empty and there is no default command.
    CommandNotSpecified,
    /// The first token names no command and there is no default command.
    CommandNotFound,
    /// The input flag at this position is the last token or is followed by
    /// another flag.
    MissingFlagArgument(usize),
    /// The flag at this position was already supplied.
    DuplicateFlagAssignment(usize),
    /// The short-form token at this position names an input flag together
    /// with other characters.
    MixedAliasToken(usize),
}

/// What parsing has gathered so far.
pub ghost struct Tally {
    pub positional: Seq<Seq<char>>,
    pub flags: Map<Seq<char>, Option<Seq<char>>>,
}

/// Nothing gathered yet.
pub open spec fn empty_tally() -> Tally {
    Tally { positional: Seq::empty(), flags: Map::empty() }
}

/// The text of each argument.
pub open spec fn texts(v: Seq<String>) -> Seq<Seq<char>> {
    v.map_values(|s: String| s@)
}

/// What a context holds, as a tally.
pub open spec fn tally_of(c: Context) -> Tally {
    Tally { positional: c.positional(), flags: c.flag_map() }
}

/// `st` with the flag `k` recorded as `v`.
pub open spec fn record(st: Tally, k: Seq<char>, v: Option<Seq<char>>) -> Tally {
    Tally { positional: st.positional, flags: st.flags.insert(k, v) }
}

/// The first flag, from position `j` on, whose identity occurs in `t`.
pub open spec fn long_match(fl: Seq<Flag>, t: Seq<char>, j: int) -> Option<int>
    decreases fl.len() - j,
{
    if j >= fl.len() {
        None
    } else if contains_seq(t, fl[j].ident@) {
        Some(j)
    } else {
        long_match(fl, t, j + 1)
    }
}

/// The flag `f`, an input flag, named at position `i`: it takes the next
/// token as its value. The flag answers whether that token was consumed.
pub open spec fn take_input(args: Seq<Seq<char>>, i: int, f: Flag, st: Tally) -> Result<
    (Tally, bool),
    CliError,
> {
    if i + 1 >= args.len() || dashed(args[i + 1]) {
        Err(CliError::MissingFlagArgument(i as usize))
    } else if st.flags.contains_key(f.ident@) {
        Err(CliError::DuplicateFlagAssignment(i as usize))
    } else {
        Ok((record(st, f.ident@, Some(args[i + 1])), true))
    }
}

/// The flag `f`, an option flag, named at position `i`.
pub open spec fn take_opt(i: int, f: Flag, st: Tally) -> Result<(Tally, bool), CliError> {
    if st.flags.contains_key(f.ident@) {
        Err(CliError::DuplicateFlagAssignment(i as usize))
    } else {
        Ok((record(st, f.ident@, None), false))
    }
}

/// A short-form token at position `i`, checked against the flags from `j`
/// on: every option flag whose alias occurs in it is set; an input flag whose
/// alias occurs in it must be named alone, and ends the check.
pub open spec fn short_scan(fl: Seq<Flag>, args: Seq<Seq<char>>, i: int, j: int, st: Tally) -> Result<
    (Tally, bool),
    CliError,
>
    decreases fl.len() - j,
{
    if j >= fl.len() {
        Ok((st, false))
    } else {
        let f = fl[j];
        if f.alias is Some && contains_seq(args[i], f.alias->0@) {
            if f.kind == FlagKind::InputFlag {
                if args[i] == seq!['-'] + f.alias->0@ {
                    take_input(args, i, f, st)
                } else {
                    Err(CliError::MixedAliasToken(i as usize))
                }
            } else {
                match take_opt(i, f, st) {
                    Err(e) => Err(e),
                    Ok((st2, _)) => short_scan(fl, args, i, j + 1, st2),
                }
            }
        } else {
            short_scan(fl, args, i, j + 1, st)
        }
    }
}

/// The effect of the token at position `i`, and whether it consumed the
/// token after it.
pub open spec fn step(fl: Seq<Flag>, args: Seq<Seq<char>>, i: int, st: Tally) -> Result<
    (Tally, bool),
    CliError,
> {
    let t = args[i];
    if !dashed(t) {
        Ok((Tally { positional: st.positional.push(t), flags: st.flags }, false))
    } else if double_dashed(t) {
        match long_match(fl, t, 0) {
            None => Ok((st, false)),
            Some(j) => if fl[j].kind == FlagKind::InputFlag {
                take_input(args, i, fl[j], st)
            } else {
                take_opt(i, fl[j], st)
            },
        }
    } else {
        short_scan(fl, args, i, 0, st)
    }
}

/// The tokens from position `i` on, applied to `st` left to right.
pub open spec fn scan(fl: Seq<Flag>, args: Seq<Seq<char>>, i: int, st: Tally) -> Result<
    Tally,
    CliError,
>
    decreases args.len() + 1 - i,
{
    if i < 0 || i >= args.len() {
        Ok(st)
    } else {
        match step(fl, args, i, st) {
            Err(e) => Err(e),
            Ok((st2, consumed)) => scan(
                fl,
                args,
                if consumed {
                    i + 2
                } else {
                    i + 1
                },
                st2,
            ),
        }
    }
}

fn take_input_exec(args: &Vec<String>, i: usize, f: &Flag, ctx: &mut Context) -> (r: Result<
    bool,
    CliError,
>)
    requires
        i < args@.len(),
    ensures
        final(ctx).is_default == old(ctx).is_default,
        match r {
            Ok(c) => {
                &&& take_input(texts(args@), i as int, *f, tally_of(*old(ctx))) == Ok::<
                    (Tally, bool),
                    CliError,
                >((tally_of(*final(ctx)), c))
                &&& c && i + 1 < args@.len()
            },
            Err(e) => take_input(texts(args@), i as int, *f, tally_of(*old(ctx))) == Err::<
                (Tally, bool),
                CliError,
            >(e),
        },
{
    if i >= args.len() - 1 || is_dashed(args[i + 1].as_str()) {
        return Err(CliError::MissingFlagArgument(i));
    }
    if ctx.is_set(f.ident) {
        return Err(CliError::DuplicateFlagAssignment(i));
    }
    ctx.push(f.ident, FlagRes::Input(args[i + 1].clone()));
    Ok(true)
}

fn take_opt_exec(i: usize, f: &Flag, ctx: &mut Context) -> (r: Result<bool, CliError>)
    ensures
        final(ctx).is_default == old(ctx).is_default,
        match r {
            Ok(c) => {
                &&& take_opt(i as int, *f, tally_of(*old(ctx))) == Ok::<(Tally, bool), CliError>(
                    (tally_of(*final(ctx)), c),
                )
                &&& !c
            },
            Err(e) => take_opt(i as int, *f, tally_of(*old(ctx))) == Err::<(Tally, bool), CliError>(
                e,
            ),
        },
{
    if ctx.is_set(f.ident) {
        return Err(CliError::DuplicateFlagAssignment(i));
    }
    ctx.push(f.ident, FlagRes::Opt);
    Ok(false)
}

fn short_exec(fl: &Vec<Flag>, args: &Vec<String>, i: usize, ctx: &mut Context) -> (r: Result<
    bool,
    CliError,
>)
    requires
        i < args@.len(),
    ensures
        final(ctx).is_default == old(ctx).is_default,
        match r {
            Ok(c) => {
                &&& short_scan(fl@, texts(args@), i as int, 0, tally_of(*old(ctx))) == Ok::<
                    (Tally, bool),
                    CliError,
                >((tally_of(*final(ctx)), c))
                &&& c ==> i + 1 < args@.len()
            },
            Err(e) => short_scan(fl@, texts(args@), i as int, 0, tally_of(*old(ctx))) == Err::<
                (Tally, bool),
                CliError,
            >(e),
        },
{
    let ghost a = texts(args@);
    let ghost goal = short_scan(fl@, a, i as int, 0, tally_of(*ctx));
    let ghost d = ctx.is_default;
    let t = args[i].as_str();
    assert(t@ == a[i as int]);
    let mut j: usize = 0;
    while j < fl.len()
        invariant
            j <= fl@.len(),
            i < args@.len(),
            a == texts(args@),
            t@ == a[i as int],
            ctx.is_default == d,
            d == old(ctx).is_default,
            goal == short_scan(fl@, a, i as int, 0, tally_of(*old(ctx))),
            short_scan(fl@, a, i as int, j as int, tally_of(*ctx)) == goal,
        decreases fl@.len() - j,
    {
        let f = &fl[j];
        if let Some(al) = f.alias {
            if contains_text(t, al) {
                if f.kind == FlagKind::InputFlag {
                    if is_short_form(t, al) {
                        return take_input_exec(args, i, f, ctx);
                    }
                    return Err(CliError::MixedAliasToken(i));
                }
                let r = take_opt_exec(i, f, ctx);
                if r.is_err() {
                    return r;
                }
            }
        }
        j = j + 1;
    }
    Ok(false)
}

fn step_exec(fl: &Vec<Flag>, args: &Vec<String>, i: usize, ctx: &mut Context) -> (r: Result<
    bool,
    CliError,
>)
    requires
        i < args@.len(),
    ensures
        final(ctx).is_default == old(ctx).is_default,
        match r {
            Ok(c) => {
                &&& step(fl@, texts(args@), i as int, tally_of(*old(ctx))) == Ok::<
                    (Tally, bool),
                    CliError,
                >((tally_of(*final(ctx)), c))
                &&& c ==> i + 1 < args@.len()
            },
            Err(e) => step(fl@, texts(args@), i as int, tally_of(*old(ctx))) == Err::<
                (Tally, bool),
                CliError,
            >(e),
        },
{
    let ghost a = texts(args@);
    let t = args[i].as_str();
    assert(t@ == a[i as int]);
    if !is_dashed(t) {
        ctx.arg.push(args[i].clone());
        assert(ctx.positional() =~= old(ctx).positional().push(t@));
        return Ok(false);
    }
    if is_double_dashed(t) {
        let mut j: usize = 0;
        while j < fl.len()
            invariant
                j <= fl@.len(),
                i < args@.len(),
                a == texts(args@),
                t@ == a[i as int],
                dashed(t@),
                double_dashed(t@),
                *ctx == *old(ctx),
                long_match(fl@, t@, j as int) == long_match(fl@, t@, 0),
            decreases fl@.len() - j,
        {
            let f = &fl[j];
            if contains_text(t, f.ident) {
                if f.kind == FlagKind::InputFlag {
                    return take_input_exec(args, i, f, ctx);
                }
                return take_opt_exec(i, f, ctx);
            }
            j = j + 1;
        }
        return Ok(false);
    }
    short_exec(fl, args, i, ctx)
}

/// Applies the tokens from position `start` on to `ctx`, against the flags
/// `fl`.
pub fn scan_exec(fl: &Vec<Flag>, args: &Vec<String>, start: usize, ctx: Context) -> (r: Result<
    Context,
    CliError,
>)
    requires
        start <= args@.len(),
    ensures
        match r {
            Ok(c) => {
                &&& scan(fl@, texts(args@), start as int, tally_of(ctx)) == Ok::<Tally, CliError>(
                    tally_of(c),
                )
                &&& c.is_default == ctx.is_default
            },
            Err(e) => scan(fl@, texts(args@), start as int, tally_of(ctx)) == Err::<
                Tally,
                CliError,
            >(e),
        },
{
    let ghost a = texts(args@);
    let ghost goal = scan(fl@, a, start as int, tally_of(ctx));
    let ghost d = ctx.is_default;
    let mut cur = ctx;
    let mut i: usize = start;
    while i < args.len()
        invariant
            i <= args@.len(),
            a == texts(args@),
            cur.is_default == d,
            d == ctx.is_default,
            goal == scan(fl@, a, start as int, tally_of(ctx)),
            scan(fl@, a, i as int, tally_of(cur)) == goal,
        decreases args@.len() - i,
    {
        match step_exec(fl, args, i, &mut cur) {
            Err(e) => {
                return Err(e);
            },
            Ok(consumed) => {
                if consumed {
                    i = i + 2;
                } else {
                    i = i + 1;
                }
            },
        }
    }
    Ok(cur)
}

} // verus!
