//! Collected declaration shapes: function signatures and variable
//! declarations recorded during parsing for a later compilation stage.

use vstd::prelude::*;

use crate::error::Problem;

verus! {

/// One named parameter of a recorded function signature.
#[derive(Debug)]
pub struct Params {
    pub param_name: String,
}

/// One return type of a recorded function signature.
#[derive(Debug)]
pub struct Returns {
    pub return_type: String,
}

/// A recorded function signature: name, ordered parameters, ordered returns.
#[derive(Debug)]
pub struct Functions {
    pub name: String,
    pub params: Vec<Params>,
    pub returns: Vec<Returns>,
}

/// A recorded variable declaration: name and annotated type.
#[derive(Debug)]
pub struct Variables {
    pub var_name: String,
    pub var_type: String,
}

/// Everything recorded while parsing one program.
#[derive(Debug)]
pub struct Context {
    pub functions: Vec<Functions>,
    pub variables: Vec<Variables>,
}

impl Context {
    /// An empty context.
    pub fn new() -> (r: Context)
        ensures
            r.functions@.len() == 0,
            r.variables@.len() == 0,
    {
        Context { functions: Vec::new(), variables: Vec::new() }
    }

    /// Records one variable declaration.
    pub fn variable_context(&mut self, vname: String, vtype: String) -> (r: Result<(), Problem>)
        ensures
            r is Ok,
            final(self).functions == old(self).functions,
            final(self).variables@.len() == old(self).variables@.len() + 1,
            final(self).variables@.last().var_name == vname,
            final(self).variables@.last().var_type == vtype,
            old(self).variables@.is_prefix_of(final(self).variables@),
    {
        let variable = Variables { var_name: vname, var_type: vtype };
        self.variables.push(variable);
        Ok(())
    }

    /// Records one function signature with a single parameter name and a
    /// single return type.
    pub fn function_context(&mut self, name: String, params: String, ret_type: String) -> (r:
        Result<(), Problem>)
        ensures
            r is Ok,
            final(self).variables == old(self).variables,
            final(self).functions@.len() == old(self).functions@.len() + 1,
            final(self).functions@.last().name == name,
            final(self).functions@.last().params@.len() == 1,
            final(self).functions@.last().params@[0].param_name == params,
            final(self).functions@.last().returns@.len() == 1,
            final(self).functions@.last().returns@[0].return_type == ret_type,
            old(self).functions@.is_prefix_of(final(self).functions@),
    {
        let mut function = Functions { name, params: Vec::new(), returns: Vec::new() };
        let function_param = Params { param_name: params };
        let return_param = Returns { return_type: ret_type };
        function.params.push(function_param);
        function.returns.push(return_param);
        self.functions.push(function);
        Ok(())
    }
}

} // verus!
