//! Declarations of subcommands and of the flags they accept.
use vstd::prelude::*;
use crate::context::Context;

verus! {

/// How a flag takes its value.
#[derive(PartialEq, Eq, Structural, Clone, Copy, Debug)]
pub enum FlagKind {
    /// Consumes the following token as its value.
    InputFlag,
    /// Present or absent; carries no value.
    OptFlag,
}

/// One flag that a command recognises.
pub struct Flag {
    /// Short form, matched after a single `-`; without one the short form
    /// never matches.
    pub alias: Option<&'static str>,
    /// Text shown in help output.
    pub description: &'static str,
    /// Long form, matched after `--`, and the key of its value.
    pub ident: &'static str,
    pub kind: FlagKind,
}

impl Flag {
    pub fn new(
        ident: &'static str,
        alias: Option<&'static str>,
        kind: FlagKind,
        description: &'static str,
    ) -> (r: Flag)
        ensures
            r.ident == ident,
            r.alias == alias,
            r.kind == kind,
            r.description == description,
    {
        Flag { alias, description, ident, kind }
    }
}

/// The behaviour of a command: what runs with the application state and the
/// parsed context.
pub trait Handler<U> {
    fn execute(&self, inner: U, ctx: Context);
}

/// One subcommand: its names, its flags, its help and its handler.
#[verifier::reject_recursive_types(U)]
pub struct Command<U> {
    pub ident: &'static str,
    pub alias: Option<&'static str>,
    pub directive: Box<dyn Handler<U>>,
    /// Declared flags, in the order help lists them.
    pub flags: Vec<Flag>,
    /// Short description, the first part of the help text.
    pub helptext: &'static str,
    /// Usage line of the help text.
    pub usage: &'static str,
}

/// The help line of one flag: `--<ident> ; -<alias> : <description>`, the
/// alias part left out when there is none.
pub open spec fn flag_line(f: Flag) -> Seq<char> {
    "--"@ + f.ident@ + match f.alias {
        Some(a) => " ; -"@ + a@,
        None => Seq::<char>::empty(),
    } + " : "@ + f.description@ + "\n"@
}

/// The help lines of `fs`, in order.
pub open spec fn flag_lines(fs: Seq<Flag>) -> Seq<char>
    decreases fs.len(),
{
    if fs.len() == 0 {
        Seq::<char>::empty()
    } else {
        flag_lines(fs.drop_last()) + flag_line(fs.last())
    }
}

/// The identity of the help flag that registration adds to every command.
pub open spec fn help_ident() -> Seq<char> {
    "help"@
}

impl<U> Command<U> {
    /// The full help text: description, usage, and an options section when
    /// the command has flags.
    pub open spec fn help_spec(&self) -> Seq<char> {
        self.helptext@ + "\n\nUSAGE:\n"@ + self.usage@ + "\n"@ + if self.flags@.len() > 0 {
            "\nOPTIONS:\n"@ + flag_lines(self.flags@)
        } else {
            Seq::<char>::empty()
        }
    }

    pub fn new<T>(ident: &'static str, alias: Option<&'static str>, directive: T) -> (r: Command<U>)
        where
            T: Handler<U> + 'static,
        ensures
            r.ident == ident,
            r.alias == alias,
            r.flags@.len() == 0,
            r.helptext@ == ""@,
            r.usage@ == ""@,
    {
        Command {
            ident,
            alias,
            directive: Box::new(directive),
            flags: Vec::new(),
            helptext: "",
            usage: "",
        }
    }

    /// Appends a flag declaration.
    pub fn flag(self, f: Flag) -> (r: Command<U>)
        ensures
            r.flags@ == self.flags@.push(f),
            r.ident == self.ident,
            r.alias == self.alias,
            r.helptext == self.helptext,
            r.usage == self.usage,
    {
        let mut c = self;
        c.flags.push(f);
        c
    }

    /// Sets the short description shown first in help.
    pub fn set_help(self, ht: &'static str) -> (r: Command<U>)
        ensures
            r.helptext == ht,
            r.flags@ == self.flags@,
            r.ident == self.ident,
            r.alias == self.alias,
            r.usage == self.usage,
    {
        let mut c = self;
        c.helptext = ht;
        c
    }

    /// Sets the usage line shown in help.
    pub fn set_usage(self, u: &'static str) -> (r: Command<U>)
        ensures
            r.usage == u,
            r.flags@ == self.flags@,
            r.ident == self.ident,
            r.alias == self.alias,
            r.helptext == self.helptext,
    {
        let mut c = self;
        c.usage = u;
        c
    }

    /// Renders the help text.
    pub fn help_text(&self) -> (r: String)
        ensures
            r@ == self.help_spec(),
    {
        let mut s = String::from_str(self.helptext);
        s.append("\n\nUSAGE:\n");
        s.append(self.usage);
        s.append("\n");
        if self.flags.len() > 0 {
            s.append("\nOPTIONS:\n");
            let ghost head = s@;
            let mut i: usize = 0;
            while i < self.flags.len()
                invariant
                    i <= self.flags@.len(),
                    s@ == head + flag_lines(self.flags@.subrange(0, i as int)),
                decreases self.flags@.len() - i,
            {
                let f = &self.flags[i];
                s.append("--");
                s.append(f.ident);
                if let Some(a) = f.alias {
                    s.append(" ; -");
                    s.append(a);
                }
                s.append(" : ");
                s.append(f.description);
                s.append("\n");
                proof {
                    assert(self.flags@.subrange(0, i + 1).drop_last() =~= self.flags@.subrange(
                        0,
                        i as int,
                    ));
                }
                i = i + 1;
                assert(s@ =~= head + flag_lines(self.flags@.subrange(0, i as int)));
            }
            assert(self.flags@.subrange(0, i as int) =~= self.flags@);
        }
        assert(s@ =~= self.help_spec());
        s
    }

    /// Runs the command: with the help flag set, returns the help text and
    /// leaves the handler alone; otherwise runs the handler.
    pub fn run(&self, inner: U, ctx: Context) -> (r: Option<String>)
        ensures
            r is Some <==> ctx.flag_map().contains_key(help_ident()),
            r is Some ==> r->0@ == self.help_spec(),
    {
        if ctx.is_set("help") {
            Some(self.help_text())
        } else {
            self.directive.execute(inner, ctx);
            None
        }
    }
}

} // verus!
