//! The scope environment: a chain of name-to-type binding tables.  Each
//! lexical block owns one table and a link to the enclosing block's table;
//! lookup walks the entire ancestor chain, so a binding made in an outer
//! scope stays visible at any nesting depth.

use vstd::prelude::*;

use crate::error::Problem;
use crate::types::Types;

verus! {

/// The bindings a record holds, read back to front so that a later
/// definition of the same name shadows an earlier one.
pub open spec fn record_map(r: Seq<(String, Types)>) -> Map<Seq<char>, Types>
    decreases r.len(),
{
    if r.len() == 0 {
        Map::empty()
    } else {
        record_map(r.drop_last()).insert(r.last().0@, r.last().1)
    }
}

/// Resolution through a scope chain, innermost scope first: the first scope
/// that binds the name decides its type.
pub open spec fn chain_resolve(c: Seq<Map<Seq<char>, Types>>, name: Seq<char>) -> Option<Types>
    decreases c.len(),
{
    if c.len() == 0 {
        None
    } else if c[0].contains_key(name) {
        Some(c[0][name])
    } else {
        chain_resolve(c.subrange(1, c.len() as int), name)
    }
}

/// One scope's binding table together with its enclosing scopes.
#[derive(Debug)]
pub struct TypeEnvironment {
    pub record: Vec<(String, Types)>,
    pub parent: Option<Box<TypeEnvironment>>,
}

impl TypeEnvironment {
    /// The bindings of this scope alone.
    pub open spec fn own_map(self) -> Map<Seq<char>, Types> {
        record_map(self.record@)
    }

    /// The whole chain of binding tables, this scope's first, the global
    /// scope's last.
    pub open spec fn chain(self) -> Seq<Map<Seq<char>, Types>>
        decreases self,
    {
        match self.parent {
            Option::None => seq![self.own_map()],
            Option::Some(p) => seq![self.own_map()] + p.chain(),
        }
    }

    /// A fresh global scope with no bindings.
    pub fn new() -> (r: TypeEnvironment)
        ensures
            r.record@ == Seq::<(String, Types)>::empty(),
            r.parent is None,
            r.chain() == seq![Map::<Seq<char>, Types>::empty()],
    {
        let r = TypeEnvironment { record: Vec::new(), parent: None };
        proof {
            assert(r.own_map() =~= Map::<Seq<char>, Types>::empty());
            assert(r.chain() =~= seq![Map::<Seq<char>, Types>::empty()]);
        }
        r
    }

    /// A fresh scope for one lexical block, chained to the scope it opens
    /// inside of.
    pub fn branch_env(parent: TypeEnvironment) -> (r: TypeEnvironment)
        ensures
            r.record@ == Seq::<(String, Types)>::empty(),
            r.parent == Option::Some(Box::new(parent)),
            r.chain() == seq![Map::<Seq<char>, Types>::empty()] + parent.chain(),
    {
        let r = TypeEnvironment { record: Vec::new(), parent: Some(Box::new(parent)) };
        proof {
            assert(r.own_map() =~= Map::<Seq<char>, Types>::empty());
            assert(r.chain() =~= seq![Map::<Seq<char>, Types>::empty()] + parent.chain());
        }
        r
    }

    /// Binds (or overwrites) a name in the current scope and returns the
    /// bound type for chaining.  Enclosing scopes are untouched.
    pub fn define(&mut self, vname: String, vtype: Types) -> (r: Types)
        ensures
            r == vtype,
            final(self).parent == old(self).parent,
            final(self).own_map() == old(self).own_map().insert(vname@, vtype),
            final(self).chain() == old(self).chain().update(
                0,
                old(self).chain()[0].insert(vname@, vtype),
            ),
    {
        let ghost old_env = *self;
        self.record.push((vname, vtype));
        proof {
            assert(self.record@.drop_last() =~= old_env.record@);
            assert(self.own_map() =~= old_env.own_map().insert(vname@, vtype));
            lemma_chain_head(old_env);
            lemma_chain_head(*self);
            assert(self.chain() =~= old_env.chain().update(
                0,
                old_env.chain()[0].insert(vname@, vtype),
            ));
        }
        vtype
    }

    /// Looks a name up through the whole scope chain: the current scope's
    /// bindings first, then each enclosing scope in turn, failing only when
    /// no scope in the chain binds the name.
    pub fn lookup(&self, vname: String) -> (r: Result<Types, Problem>)
        ensures
            r == match chain_resolve(self.chain(), vname@) {
                Option::Some(t) => Result::<Types, Problem>::Ok(t),
                Option::None => Result::<Types, Problem>::Err(Problem::Fail),
            },
    {
        self.resolve(vname)
    }

    /// The resolution behind `lookup`: scans this scope's record back to
    /// front, then recurses into the parent chain.
    pub fn resolve(&self, vname: String) -> (r: Result<Types, Problem>)
        ensures
            r == match chain_resolve(self.chain(), vname@) {
                Option::Some(t) => Result::<Types, Problem>::Ok(t),
                Option::None => Result::<Types, Problem>::Err(Problem::Fail),
            },
        decreases *self,
    {
        proof {
            lemma_chain_head(*self);
        }
        let n = self.record.len();
        let mut i: usize = n;
        while i > 0
            invariant
                i <= n,
                n == self.record@.len(),
                forall|j: int| i <= j < n ==> #[trigger] self.record@[j].0@ != vname@,
            decreases i,
        {
            i = i - 1;
            if self.record[i].0 == vname {
                proof {
                    lemma_record_map_found(self.record@, vname@, i as int);
                }
                return Ok(self.record[i].1);
            }
        }
        proof {
            lemma_record_map_absent(self.record@, vname@);
        }
        match &self.parent {
            None => {
                proof {
                    assert(self.chain() == seq![self.own_map()]);
                    assert(self.chain().subrange(1, 1) =~= Seq::<Map<Seq<char>, Types>>::empty());
                    assert(chain_resolve(Seq::<Map<Seq<char>, Types>>::empty(), vname@) is None);
                }
                Err(Problem::fail())
            },
            Some(p) => {
                proof {
                    assert(self.chain().subrange(1, self.chain().len() as int) =~= p.chain());
                }
                p.resolve(vname)
            },
        }
    }
}

/// The first table of a scope's chain is its own binding table.
pub proof fn lemma_chain_head(env: TypeEnvironment)
    ensures
        env.chain().len() >= 1,
        env.chain()[0] == env.own_map(),
        env.parent matches Option::Some(p) ==> env.chain().subrange(
            1,
            env.chain().len() as int,
        ) =~= p.chain(),
{
    match env.parent {
        Option::None => {},
        Option::Some(p) => {
            assert((seq![env.own_map()] + p.chain()).subrange(
                1,
                (seq![env.own_map()] + p.chain()).len() as int,
            ) =~= p.chain());
        },
    }
}

/// When every entry at or after position `i` has another name, the record's
/// bindings for that name are decided by the first `i` entries.
proof fn lemma_record_map_take(r: Seq<(String, Types)>, name: Seq<char>, i: int)
    requires
        0 <= i <= r.len(),
        forall|j: int| i <= j < r.len() ==> #[trigger] r[j].0@ != name,
    ensures
        record_map(r).contains_key(name) == record_map(r.take(i)).contains_key(name),
        record_map(r).contains_key(name) ==> record_map(r)[name] == record_map(r.take(i))[name],
    decreases r.len() - i,
{
    if i < r.len() {
        lemma_record_map_take(r.drop_last(), name, i);
        assert(r.drop_last().take(i) =~= r.take(i));
    } else {
        assert(r.take(i) =~= r);
    }
}

/// A scan from the back that stops at position `i` on a matching name reads
/// exactly the binding the record map holds.
proof fn lemma_record_map_found(r: Seq<(String, Types)>, name: Seq<char>, i: int)
    requires
        0 <= i < r.len(),
        r[i].0@ == name,
        forall|j: int| i < j < r.len() ==> #[trigger] r[j].0@ != name,
    ensures
        record_map(r).contains_key(name),
        record_map(r)[name] == r[i].1,
{
    lemma_record_map_take(r, name, i + 1);
    assert(r.take(i + 1).drop_last() =~= r.take(i));
    assert(r.take(i + 1).last() == r[i]);
}

/// A record none of whose entries carries the name does not bind it.
proof fn lemma_record_map_absent(r: Seq<(String, Types)>, name: Seq<char>)
    requires
        forall|j: int| 0 <= j < r.len() ==> #[trigger] r[j].0@ != name,
    ensures
        !record_map(r).contains_key(name),
{
    lemma_record_map_take(r, name, 0);
    assert(r.take(0) =~= Seq::<(String, Types)>::empty());
}

/// A binding in an ancestor scope is found from any descendant scope, no
/// matter how deep the nesting: when scope `i` of the chain binds a name and
/// no scope closer to the current one does, resolution returns exactly that
/// binding.  In particular a global binding shadowed nowhere is visible from
/// arbitrarily deeply nested blocks.
pub proof fn lemma_lookup_reaches_ancestors(
    c: Seq<Map<Seq<char>, Types>>,
    i: int,
    name: Seq<char>,
)
    requires
        0 <= i < c.len(),
        c[i].contains_key(name),
        forall|j: int| 0 <= j < i ==> !(#[trigger] c[j]).contains_key(name),
    ensures
        chain_resolve(c, name) == Option::Some(c[i][name]),
    decreases i,
{
    if i > 0 {
        lemma_lookup_reaches_ancestors(c.subrange(1, c.len() as int), i - 1, name);
    }
}

/// After a definition in the current scope, resolution from that scope finds
/// the newly bound type at once, whatever the rest of the chain holds.
pub proof fn lemma_define_then_resolve(
    c: Seq<Map<Seq<char>, Types>>,
    name: Seq<char>,
    vtype: Types,
)
    requires
        c.len() >= 1,
    ensures
        chain_resolve(c.update(0, c[0].insert(name, vtype)), name) == Option::Some(vtype),
{
    let c2 = c.update(0, c[0].insert(name, vtype));
    assert(c2[0].contains_key(name));
    assert(c2[0][name] == vtype);
}

} // verus!
