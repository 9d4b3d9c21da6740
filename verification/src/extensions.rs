//! A command line to run, kept as plain strings.

use vstd::prelude::*;
use crate::text::{copy_str, views};

verus! {

broadcast use vstd::string::group_string_axioms;

/// A program and its arguments.
#[derive(Debug, Clone)]
pub struct SafeCommand {
    pub program: String,
    pub args: Vec<String>,
}

impl SafeCommand {
    /// The program, without arguments.
    pub fn new(program: &str) -> (r: SafeCommand)
        ensures
            r.program@ == program@,
            r.args@.len() == 0,
    {
        SafeCommand { program: copy_str(program), args: Vec::new() }
    }

    /// Adds an argument.
    pub fn arg(&mut self, arg: &str) -> (r: &mut SafeCommand)
        ensures
            views(r.args@) == views(old(self).args@).push(arg@),
            r.program == old(self).program,
            *final(self) == *final(r),
    {
        let ghost before = self.args@;
        self.args.push(copy_str(arg));
        assert(views(self.args@) =~= views(before).push(arg@));
        self
    }

    /// Adds arguments, in order.
    pub fn args(&mut self, args: &Vec<String>) -> (r: &mut SafeCommand)
        ensures
            views(r.args@) == views(old(self).args@) + views(args@),
            r.program == old(self).program,
            *final(self) == *final(r),
    {
        let ghost start = views(self.args@);
        let mut i: usize = 0;
        while i < args.len()
            invariant
                i <= args.len(),
                self.program == old(self).program,
                start == views(old(self).args@),
                views(self.args@) == start + views(args@).take(i as int),
            decreases args.len() - i,
        {
            let ghost before = self.args@;
            let a = copy_str(args[i].as_str());
            self.args.push(a);
            assert(views(self.args@) =~= views(before).push(a@));
            assert(views(args@).take(i + 1) =~= views(args@).take(i as int).push(args@[i as int]@));
            assert(views(self.args@) =~= start + views(args@).take(i + 1));
            i = i + 1;
        }
        assert(views(args@).take(args.len() as int) == views(args@));
        self
    }
}

} // verus!
