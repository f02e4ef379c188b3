//! The stack of types that serialization has entered, for error reports.
use vstd::prelude::*;

use crate::info::TypeInfo;
use vstd::string::StringExecFns;

verus! {

/// The text that lists the stacked types' paths, outermost first: the first as
/// "`path`", each other as " -> `path`", each on a line of its own.
pub open spec fn stack_text(s: Seq<TypeInfo>) -> Seq<char>
    decreases s.len(),
{
    if s.len() == 0 {
        Seq::empty()
    } else if s.len() == 1 {
        "`"@ + s[0].spec_ty().path@ + "`\n"@
    } else {
        stack_text(s.drop_last()) + " -> `"@ + s.last().spec_ty().path@ + "`\n"@
    }
}

/// A stack of type information.
pub struct TypeInfoStack {
    stack: Vec<TypeInfo>,
}

impl TypeInfoStack {
    pub closed spec fn spec_stack(self) -> Seq<TypeInfo> {
        self.stack@
    }

    /// An empty stack.
    pub fn new() -> (r: Self)
        ensures
            r.spec_stack() == Seq::<TypeInfo>::empty(),
    {
        TypeInfoStack { stack: Vec::new() }
    }

    /// Pushes a type on the stack.
    pub fn push(&mut self, type_info: TypeInfo)
        ensures
            final(self).spec_stack() == old(self).spec_stack().push(type_info),
    {
        self.stack.push(type_info);
    }

    /// Pops the top type, if there is one.
    pub fn pop(&mut self)
        ensures
            old(self).spec_stack().len() > 0 ==> final(self).spec_stack() == old(
                self,
            ).spec_stack().drop_last(),
            old(self).spec_stack().len() == 0 ==> final(self).spec_stack() == old(self).spec_stack(),
    {
        if self.stack.len() > 0 {
            self.stack.pop();
        }
    }

    /// Empties the stack.
    pub fn clear(&mut self)
        ensures
            final(self).spec_stack() == Seq::<TypeInfo>::empty(),
    {
        self.stack.clear();
    }

    /// The stacked types, bottom first.
    pub fn iter(&self) -> (r: &Vec<TypeInfo>)
        ensures
            r@ == self.spec_stack(),
    {
        &self.stack
    }

    /// The paths of the stacked types, bottom first, one per line.
    pub fn to_string(&self) -> (r: String)
        ensures
            r@ == stack_text(self.spec_stack()),
    {
        let mut out = String::new();
        let mut i: usize = 0;
        while i < self.stack.len()
            invariant
                i <= self.stack@.len(),
                out@ == stack_text(self.stack@.take(i as int)),
            decreases self.stack@.len() - i,
        {
            proof {
                assert(self.stack@.take((i + 1) as int).drop_last() =~= self.stack@.take(i as int));
                assert(self.stack@.take(1) =~= seq![self.stack@[0]]);
            }
            if i == 0 {
                out.append("`");
                out.append(self.stack[i].type_path());
                out.append("`\n");
                proof {
                    assert(out@ =~= "`"@ + self.stack@[0].spec_ty().path@ + "`\n"@);
                }
            } else {
                out.append(" -> `");
                out.append(self.stack[i].type_path());
                out.append("`\n");
            }
            i = i + 1;
        }
        proof {
            assert(self.stack@.take(self.stack@.len() as int) =~= self.stack@);
        }
        out
    }
}

} // verus!
