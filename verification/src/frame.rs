//! One scope's table from names to values.

use crate::types::{EvalError, EvalResult, Obj, Symb, Value};
use vstd::prelude::*;

verus! {

/// The table that a sequence of bindings stands for: a later binding of a
/// name replaces an earlier one.
pub open spec fn bindings_of(entries: Seq<(Symb, Obj)>) -> Map<Seq<char>, Value>
    decreases entries.len(),
{
    if entries.len() == 0 {
        Map::empty()
    } else {
        bindings_of(entries.drop_last()).insert(entries.last().0.name@, entries.last().1@)
    }
}

/// No name is bound twice.
pub open spec fn distinct_names(entries: Seq<(Symb, Obj)>) -> bool {
    forall|i: int, j: int|
        0 <= i < j < entries.len() ==> (#[trigger] entries[i]).0.name@ != (#[trigger] entries[j]).0.name@
}

/// Binds the parameters to the arguments pair by pair, on top of `acc`.
/// A parameter that is no symbol fails.
pub open spec fn zip_bindings(params: Value, args: Value, acc: Map<Seq<char>, Value>) -> EvalResult<
    Map<Seq<char>, Value>,
>
    decreases params,
{
    match params {
        Value::Cons(p, rest) => match *p {
            Value::Symbol(name) => match args {
                Value::Cons(a, more) => zip_bindings(*rest, *more, acc.insert(name, *a)),
                _ => Err(EvalError::NotACons),
            },
            _ => Err(EvalError::NotASymbol),
        },
        _ => Ok(acc),
    }
}

/// The table of a call: each parameter bound to the argument at its place.
/// Both must be proper lists, of one length.
pub open spec fn bind_params(params: Value, args: Value) -> EvalResult<Map<Seq<char>, Value>> {
    match params.list_length() {
        Err(e) => Err(e),
        Ok(n) => match args.list_length() {
            Err(e) => Err(e),
            Ok(m) => if n != m {
                Err(EvalError::ArityMismatch)
            } else {
                zip_bindings(params, args, Map::empty())
            },
        },
    }
}

/// A name that no entry binds is not in the table.
proof fn lemma_absent(entries: Seq<(Symb, Obj)>, name: Seq<char>)
    requires
        forall|i: int| 0 <= i < entries.len() ==> (#[trigger] entries[i]).0.name@ != name,
    ensures
        !bindings_of(entries).dom().contains(name),
    decreases entries.len(),
{
    if entries.len() > 0 {
        let front = entries.drop_last();
        assert forall|i: int| 0 <= i < front.len() implies (#[trigger] front[i]).0.name@
            != name by {
            assert(front[i] == entries[i]);
        }
        lemma_absent(front, name);
    }
}

/// The table holds for a name the value of the one entry that binds it.
proof fn lemma_present(entries: Seq<(Symb, Obj)>, k: int)
    requires
        distinct_names(entries),
        0 <= k < entries.len(),
    ensures
        bindings_of(entries).dom().contains(entries[k].0.name@),
        bindings_of(entries)[entries[k].0.name@] == entries[k].1@,
    decreases entries.len(),
{
    let front = entries.drop_last();
    if k < entries.len() - 1 {
        assert forall|i: int, j: int| 0 <= i < j < front.len() implies (#[trigger] front[i]).0.name@
            != (#[trigger] front[j]).0.name@ by {
            assert(front[i] == entries[i]);
            assert(front[j] == entries[j]);
        }
        assert(front[k] == entries[k]);
        lemma_present(front, k);
    }
}

/// Replacing the value of the one entry that binds a name replaces it in
/// the table.
proof fn lemma_replace(entries: Seq<(Symb, Obj)>, k: int, sym: Symb, obj: Obj)
    requires
        distinct_names(entries),
        0 <= k < entries.len(),
        sym.name@ == entries[k].0.name@,
    ensures
        distinct_names(entries.update(k, (sym, obj))),
        bindings_of(entries.update(k, (sym, obj))) == bindings_of(entries).insert(sym.name@, obj@),
    decreases entries.len(),
{
    let after = entries.update(k, (sym, obj));
    let front = entries.drop_last();
    assert forall|i: int, j: int| 0 <= i < j < after.len() implies (#[trigger] after[i]).0.name@
        != (#[trigger] after[j]).0.name@ by {
        assert(after[i].0.name@ == entries[i].0.name@);
        assert(after[j].0.name@ == entries[j].0.name@);
    }
    if k == entries.len() - 1 {
        assert(after.drop_last() =~= front);
        assert(bindings_of(after) =~= bindings_of(entries).insert(sym.name@, obj@));
    } else {
        assert forall|i: int, j: int| 0 <= i < j < front.len() implies (#[trigger] front[i]).0.name@
            != (#[trigger] front[j]).0.name@ by {
            assert(front[i] == entries[i]);
            assert(front[j] == entries[j]);
        }
        assert(front[k] == entries[k]);
        lemma_replace(front, k, sym, obj);
        assert(after.drop_last() =~= front.update(k, (sym, obj)));
        assert(after.last() == entries.last());
        assert(entries.last().0.name@ != sym.name@);
        assert(bindings_of(after) =~= bindings_of(entries).insert(sym.name@, obj@));
    }
}

/// One scope's bindings. No name is bound twice.
#[derive(Debug)]
pub struct Frame {
    symbol_table: Vec<(Symb, Obj)>,
}

impl View for Frame {
    type V = Map<Seq<char>, Value>;

    closed spec fn view(&self) -> Map<Seq<char>, Value> {
        bindings_of(self.symbol_table@)
    }
}

impl Frame {
    #[verifier::type_invariant]
    spec fn inv(self) -> bool {
        distinct_names(self.symbol_table@)
    }

    pub fn new() -> (frame: Frame)
        ensures
            frame@ == Map::<Seq<char>, Value>::empty(),
    {
        Frame { symbol_table: Vec::new() }
    }

    /// The frame of a call: each parameter bound to the argument at its
    /// place. Fails where the two are not proper lists of one length, and
    /// where a parameter is no symbol.
    pub fn from_var_vals(params: Obj, arguments: Obj) -> (r: EvalResult<Frame>)
        ensures
            match r {
                Ok(frame) => bind_params(params@, arguments@) == Ok::<
                    Map<Seq<char>, Value>,
                    EvalError,
                >(frame@),
                Err(e) => bind_params(params@, arguments@) == Err::<
                    Map<Seq<char>, Value>,
                    EvalError,
                >(e),
            },
    {
        let n: usize = params.list_length()?;
        let m: usize = arguments.list_length()?;
        if n != m {
            return Err(EvalError::ArityMismatch);
        }
        let mut frame = Frame::new();
        let mut ps = params.clone();
        let mut args = arguments.clone();
        loop
            invariant
                zip_bindings(ps@, args@, frame@) == bind_params(params@, arguments@),
            decreases ps@,
        {
            if !ps.is_cons() {
                return Ok(frame);
            }
            let sym = ps.car()?.to_symb()?;
            let arg = args.car()?;
            frame.insert(sym, arg);
            ps = ps.cdr()?;
            args = args.cdr()?;
        }
    }

    /// Binds the name of `sym` to `obj`, in place of what it was bound to.
    pub fn insert(&mut self, sym: Symb, obj: Obj)
        ensures
            final(self)@ == old(self)@.insert(sym.name@, obj@),
    {
        proof {
            use_type_invariant(&*self);
        }
        let mut table: Vec<(Symb, Obj)> = Vec::new();
        std::mem::swap(&mut self.symbol_table, &mut table);
        let ghost before = table@;
        let n: usize = table.len();
        let mut i: usize = 0;
        let mut found: bool = false;
        while i < n && !found
            invariant
                i <= n,
                n == table@.len(),
                table@ == before,
                !found ==> forall|j: int|
                    0 <= j < i ==> (#[trigger] table@[j]).0.name@ != sym.name@,
                found ==> i < n && table@[i as int].0.name@ == sym.name@,
            decreases n - i + if found { 0int } else { 1int },
        {
            if table[i].0.name == sym.name {
                found = true;
            } else {
                i += 1;
            }
        }
        if found {
            proof {
                lemma_replace(before, i as int, sym, obj);
            }
            table.set(i, (sym, obj));
        } else {
            proof {
                lemma_absent(before, sym.name@);
                let after = before.push((sym, obj));
                assert(after.drop_last() =~= before);
                assert forall|a: int, b: int| 0 <= a < b < after.len() implies (
                #[trigger] after[a]).0.name@ != (#[trigger] after[b]).0.name@ by {
                    assert(after[a] == before[a]);
                    if b < after.len() - 1 {
                        assert(after[b] == before[b]);
                    }
                }
            }
            table.push((sym, obj));
        }
        std::mem::swap(&mut self.symbol_table, &mut table);
    }

    /// The value that the name of `sym` is bound to, if it is bound.
    pub fn get(&self, sym: &Symb) -> (r: Option<Obj>)
        ensures
            match r {
                Some(obj) => self@.dom().contains(sym.name@) && self@[sym.name@] == obj@,
                None => !self@.dom().contains(sym.name@),
            },
    {
        proof {
            use_type_invariant(self);
        }
        let n: usize = self.symbol_table.len();
        let mut i: usize = 0;
        while i < n
            invariant
                i <= n,
                n == self.symbol_table@.len(),
                distinct_names(self.symbol_table@),
                forall|j: int| 0 <= j < i ==> (#[trigger] self.symbol_table@[j]).0.name@ != sym.name@,
            decreases n - i,
        {
            if self.symbol_table[i].0.name == sym.name {
                proof {
                    lemma_present(self.symbol_table@, i as int);
                }
                return Some(self.symbol_table[i].1.clone());
            }
            i += 1;
        }
        proof {
            lemma_absent(self.symbol_table@, sym.name@);
        }
        None
    }

    /// The names that the frame binds, each once, oldest first.
    pub fn all_names(&self) -> (names: Vec<String>)
        ensures
            forall|name: Seq<char>|
                self@.dom().contains(name) <==> exists|i: int|
                    0 <= i < names@.len() && (#[trigger] names@[i])@ == name,
            forall|i: int, j: int|
                0 <= i < j < names@.len() ==> (#[trigger] names@[i])@ != (#[trigger] names@[j])@,
    {
        proof {
            use_type_invariant(self);
        }
        let n: usize = self.symbol_table.len();
        let mut names: Vec<String> = Vec::new();
        let mut i: usize = 0;
        while i < n
            invariant
                i <= n,
                n == self.symbol_table@.len(),
                names@.len() == i,
                forall|j: int| 0 <= j < i ==> (#[trigger] names@[j])@ == self.symbol_table@[j].0.name@,
            decreases n - i,
        {
            names.push(self.symbol_table[i].0.name.clone());
            i += 1;
        }
        proof {
            let entries = self.symbol_table@;
            assert forall|name: Seq<char>| self@.dom().contains(name) <==> exists|i: int|
                0 <= i < names@.len() && (#[trigger] names@[i])@ == name by {
                if exists|i: int| 0 <= i < names@.len() && (#[trigger] names@[i])@ == name {
                    let k = choose|i: int| 0 <= i < names@.len() && (#[trigger] names@[i])@ == name;
                    lemma_present(entries, k);
                } else {
                    assert forall|i: int| 0 <= i < entries.len() implies (#[trigger] entries[i]).0.name@
                        != name by {
                        assert(names@[i]@ == entries[i].0.name@);
                    }
                    lemma_absent(entries, name);
                }
            }
            assert forall|i: int, j: int| 0 <= i < j < names@.len() implies (#[trigger] names@[i])@
                != (#[trigger] names@[j])@ by {
                assert(entries[i].0.name@ != entries[j].0.name@);
            }
        }
        names
    }
}

} // verus!
