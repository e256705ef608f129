//! The dispatcher: registered commands, resolution of the command a command
//! line names, and running it.
use vstd::prelude::*;
use crate::command::{help_ident, Command, Flag, FlagKind};
use crate::context::Context;
use crate::text::same_text;
use crate::tokens::{empty_tally, scan, scan_exec, tally_of, texts, CliError, Tally};

verus! {

/// The help flag that registration adds to every command.
pub open spec fn help_flag() -> Flag {
    Flag { alias: Some("h"), description: "help", ident: "help", kind: FlagKind::OptFlag }
}

/// `d` is `c` with the help flag added after its own flags.
pub open spec fn with_help<T>(c: Command<T>, d: Command<T>) -> bool {
    &&& d.ident == c.ident
    &&& d.alias == c.alias
    &&& d.helptext == c.helptext
    &&& d.usage == c.usage
    &&& d.flags@ == c.flags@.push(help_flag())
}

/// `tok` is the identity or the alias of `c`.
pub open spec fn names<T>(c: Command<T>, tok: Seq<char>) -> bool {
    c.ident@ == tok || (c.alias is Some && c.alias->0@ == tok)
}

/// The first command, from position `k` on, that `tok` names.
pub open spec fn resolve<T>(cmds: Seq<Command<T>>, tok: Seq<char>, k: int) -> Option<int>
    decreases cmds.len() - k,
{
    if k >= cmds.len() {
        None
    } else if names(cmds[k], tok) {
        Some(k)
    } else {
        resolve(cmds, tok, k + 1)
    }
}

proof fn lemma_resolve_in_range<T>(cmds: Seq<Command<T>>, tok: Seq<char>, k: int)
    requires
        0 <= k,
    ensures
        resolve(cmds, tok, k) matches Some(j) ==> k <= j < cmds.len(),
    decreases cmds.len() - k,
{
    if k < cmds.len() && !names(cmds[k], tok) {
        lemma_resolve_in_range(cmds, tok, k + 1);
    }
}

/// The result of parsing a command line: the command chosen (`None` for the
/// default command), what its tokens gave, and whether the default command
/// runs because no command was named.
pub ghost struct Parsed {
    pub target: Option<int>,
    pub tally: Tally,
    pub is_default: bool,
}

/// A command chosen for a command line, with its context.
pub struct Invocation {
    /// The position of the chosen registered command; `None` for the default
    /// command.
    pub target: Option<usize>,
    pub context: Context,
}

impl Invocation {
    pub open spec fn view(&self) -> Parsed {
        Parsed {
            target: match self.target {
                Some(k) => Some(k as int),
                None => None,
            },
            tally: tally_of(self.context),
            is_default: self.context.is_default,
        }
    }
}

/// The registered commands, the default command, and the application state
/// handed to whichever of them runs.
#[verifier::reject_recursive_types(T)]
pub struct App<T> {
    /// Registered commands, in the order resolution tries them.
    pub cmds: Vec<Command<T>>,
    /// The command that runs when the first token names no command.
    pub default: Option<Command<T>>,
    pub inner: T,
}

impl<T> App<T> {
    /// What the command line `args` parses to.
    pub open spec fn parse_spec(&self, args: Seq<Seq<char>>) -> Result<Parsed, CliError> {
        if args.len() == 0 {
            if self.default is Some {
                Ok(Parsed { target: None, tally: empty_tally(), is_default: true })
            } else {
                Err(CliError::CommandNotSpecified)
            }
        } else {
            match resolve(self.cmds@, args[0], 0) {
                Some(k) => match scan(self.cmds@[k].flags@, args, 1, empty_tally()) {
                    Ok(st) => Ok(Parsed { target: Some(k), tally: st, is_default: false }),
                    Err(e) => Err(e),
                },
                None => if self.default is Some {
                    match scan(self.default->0.flags@, args, 0, empty_tally()) {
                        Ok(st) => Ok(Parsed { target: None, tally: st, is_default: true }),
                        Err(e) => Err(e),
                    }
                } else {
                    Err(CliError::CommandNotFound)
                },
            }
        }
    }

    /// The command that `target` designates.
    pub open spec fn chosen(&self, target: Option<int>) -> Command<T> {
        match target {
            Some(k) => self.cmds@[k],
            None => self.default->0,
        }
    }

    pub fn new(inner: T) -> (r: App<T>)
        ensures
            r.cmds@.len() == 0,
            r.default is None,
            r.inner == inner,
    {
        App { cmds: Vec::new(), default: None, inner }
    }

    /// Makes `cmd`, with the help flag added, the default command.
    pub fn register_default(self, cmd: Command<T>) -> (r: App<T>)
        ensures
            r.cmds@ == self.cmds@,
            r.default is Some,
            with_help(cmd, r.default->0),
            r.inner == self.inner,
    {
        let mut a = self;
        a.default = Some(cmd.flag(Flag::new("help", Some("h"), FlagKind::OptFlag, "help")));
        a
    }

    /// Registers `cmd`, with the help flag added, after the commands already
    /// registered.
    pub fn register(self, cmd: Command<T>) -> (r: App<T>)
        ensures
            r.cmds@.len() == self.cmds@.len() + 1,
            r.cmds@.subrange(0, self.cmds@.len() as int) == self.cmds@,
            with_help(cmd, r.cmds@.last()),
            r.default == self.default,
            r.inner == self.inner,
    {
        let mut a = self;
        a.cmds.push(cmd.flag(Flag::new("help", Some("h"), FlagKind::OptFlag, "help")));
        assert(a.cmds@.subrange(0, self.cmds@.len() as int) =~= self.cmds@);
        a
    }

    /// The position of the first registered command that `tok` names.
    pub fn find_command(&self, tok: &str) -> (r: Option<usize>)
        ensures
            match r {
                Some(k) => k < self.cmds@.len() && resolve(self.cmds@, tok@, 0) == Some(k as int),
                None => resolve(self.cmds@, tok@, 0) is None,
            },
    {
        let mut k: usize = 0;
        while k < self.cmds.len()
            invariant
                k <= self.cmds@.len(),
                resolve(self.cmds@, tok@, k as int) == resolve(self.cmds@, tok@, 0),
            decreases self.cmds@.len() - k,
        {
            let c = &self.cmds[k];
            let named = match c.alias {
                Some(a) => same_text(tok, c.ident) || same_text(tok, a),
                None => same_text(tok, c.ident),
            };
            if named {
                return Some(k);
            }
            k = k + 1;
        }
        None
    }

    /// Chooses the command that `args` names and parses the rest of the
    /// command line against its flags.
    pub fn parse(&self, args: &Vec<String>) -> (r: Result<Invocation, CliError>)
        ensures
            match r {
                Ok(inv) => self.parse_spec(texts(args@)) == Ok::<Parsed, CliError>(inv@),
                Err(e) => self.parse_spec(texts(args@)) == Err::<Parsed, CliError>(e),
            },
    {
        let ghost a = texts(args@);
        if args.len() == 0 {
            if self.default.is_some() {
                let mut ctx = Context::new();
                ctx.is_default = true;
                let inv = Invocation { target: None, context: ctx };
                assert(inv.context.positional() =~= Seq::<Seq<char>>::empty());
                return Ok(inv);
            }
            return Err(CliError::CommandNotSpecified);
        }
        let first = args[0].as_str();
        assert(first@ == a[0]);
        let fresh = Context::new();
        assert(fresh.positional() =~= Seq::<Seq<char>>::empty());
        match self.find_command(first) {
            Some(k) => match scan_exec(&self.cmds[k].flags, args, 1, fresh) {
                Ok(ctx) => Ok(Invocation { target: Some(k), context: ctx }),
                Err(e) => Err(e),
            },
            None => match &self.default {
                Some(d) => {
                    let mut ctx = fresh;
                    ctx.is_default = true;
                    assert(ctx.positional() =~= Seq::<Seq<char>>::empty());
                    match scan_exec(&d.flags, args, 0, ctx) {
                        Ok(c) => Ok(Invocation { target: None, context: c }),
                        Err(e) => Err(e),
                    }
                },
                None => Err(CliError::CommandNotFound),
            },
        }
    }

    /// Parses `args` and runs the chosen command with the application state.
    /// Returns the help text when the help flag was given, in which case the
    /// handler does not run.
    pub fn run(self, args: Vec<String>) -> (r: Result<Option<String>, CliError>)
        ensures
            match self.parse_spec(texts(args@)) {
                Err(e) => r == Err::<Option<String>, CliError>(e),
                Ok(p) => {
                    &&& r is Ok
                    &&& (r->Ok_0 is Some <==> p.tally.flags.contains_key(help_ident()))
                    &&& (r->Ok_0 is Some ==> r->Ok_0->0@ == self.chosen(p.target).help_spec())
                },
            },
    {
        let inv = match self.parse(&args) {
            Ok(inv) => inv,
            Err(e) => {
                return Err(e);
            },
        };
        proof {
            lemma_resolve_in_range(self.cmds@, texts(args@)[0], 0);
        }
        let App { cmds, default, inner } = self;
        match inv.target {
            Some(k) => Ok(cmds[k].run(inner, inv.context)),
            // parsing chooses the default command only when there is one
            None => match &default {
                Some(d) => Ok(d.run(inner, inv.context)),
                None => Err(CliError::CommandNotSpecified),
            },
        }
    }
}

} // verus!
