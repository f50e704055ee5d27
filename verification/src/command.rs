//! A concrete record put through the builder rules: a command line with a
//! required executable, two accumulating lists, and an optional working
//! directory. Its companion builder is written out exactly as the
//! synthesizer emits it for this record: `executable` is plain; `args`
//! accumulates one element at a time under `arg`, and since that name
//! collides with nothing the whole-container setter `args` exists too;
//! `env` accumulates under `env`, and since the method name equals the
//! field's own name no whole-container setter exists for it; `current_dir`
//! is optional.
use crate::runtime::MissingFieldError;
use vstd::prelude::*;
use vstd::string::StringExecFns;

verus! {

/// The finished record.
#[derive(Debug, PartialEq)]
pub struct Command {
    pub executable: String,
    pub args: Vec<String>,
    pub env: Vec<String>,
    pub current_dir: Option<String>,
}

/// The companion builder: one slot per field, absent or empty initially.
#[derive(Debug)]
pub struct CommandBuilder {
    pub executable: Option<String>,
    pub args: Vec<String>,
    pub env: Vec<String>,
    pub current_dir: Option<String>,
}

impl Command {
    /// A fresh builder with every slot absent or empty.
    pub fn builder() -> (b: CommandBuilder)
        ensures
            b.executable is None,
            b.args@ == Seq::<String>::empty(),
            b.env@ == Seq::<String>::empty(),
            b.current_dir is None,
    {
        CommandBuilder { executable: None, args: Vec::new(), env: Vec::new(), current_dir: None }
    }
}

impl CommandBuilder {
    /// Set the required executable, overwriting any earlier value.
    pub fn executable(&mut self, executable: String) -> (r: &mut Self)
        ensures
            r.executable == Some(executable),
            r.args == old(self).args,
            r.env == old(self).env,
            r.current_dir == old(self).current_dir,
            *final(self) == *final(r),
    {
        self.executable = Some(executable);
        self
    }

    /// Set the whole argument list at once, overwriting any earlier
    /// contents.
    pub fn args(&mut self, args: Vec<String>) -> (r: &mut Self)
        ensures
            r.executable == old(self).executable,
            r.args == args,
            r.env == old(self).env,
            r.current_dir == old(self).current_dir,
            *final(self) == *final(r),
    {
        self.args = args;
        self
    }

    /// Append one argument, keeping the order of calls.
    pub fn arg(&mut self, arg: String) -> (r: &mut Self)
        ensures
            r.executable == old(self).executable,
            r.args@ == old(self).args@.push(arg),
            r.env == old(self).env,
            r.current_dir == old(self).current_dir,
            *final(self) == *final(r),
    {
        self.args.push(arg);
        self
    }

    /// Append one environment entry, keeping the order of calls.
    pub fn env(&mut self, env: String) -> (r: &mut Self)
        ensures
            r.executable == old(self).executable,
            r.args == old(self).args,
            r.env@ == old(self).env@.push(env),
            r.current_dir == old(self).current_dir,
            *final(self) == *final(r),
    {
        self.env.push(env);
        self
    }

    /// Set the optional working directory, overwriting any earlier value.
    pub fn current_dir(&mut self, current_dir: String) -> (r: &mut Self)
        ensures
            r.executable == old(self).executable,
            r.args == old(self).args,
            r.env == old(self).env,
            r.current_dir == Some(current_dir),
            *final(self) == *final(r),
    {
        self.current_dir = Some(current_dir);
        self
    }

    /// Finalize: fails naming `executable` when it was never set (the one
    /// required field, so it is the first checked), and otherwise moves
    /// every slot out — the builder is consumed, and a second build without
    /// re-populating `executable` fails again.
    pub fn build(&mut self) -> (r: Result<Command, MissingFieldError>)
        ensures
            old(self).executable is None ==> (r matches Err(e) && e.field@ == "executable"@
                && *final(self) == *old(self)),
            old(self).executable matches Some(e) ==> (r matches Ok(c) && {
                &&& c.executable == e
                &&& c.args == old(self).args
                &&& c.env == old(self).env
                &&& c.current_dir == old(self).current_dir
                &&& final(self).executable is None
                &&& final(self).args@ == Seq::<String>::empty()
                &&& final(self).env@ == Seq::<String>::empty()
                &&& final(self).current_dir is None
            }),
    {
        let executable = match self.executable.take() {
            Some(e) => e,
            None => {
                return Err(MissingFieldError { field: String::from_str("executable") });
            },
        };
        let mut args: Vec<String> = Vec::new();
        core::mem::swap(&mut self.args, &mut args);
        let mut env: Vec<String> = Vec::new();
        core::mem::swap(&mut self.env, &mut env);
        let current_dir = self.current_dir.take();
        Ok(Command { executable, args, env, current_dir })
    }
}

} // verus!
