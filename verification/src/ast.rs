//! Syntax trees, and the runtime values they stand for.

use crate::obj::list_value;
use crate::types::{Ast, AstView, Obj, Rule, Token, Value};
use vstd::prelude::*;

verus! {

impl AstView {
    /// Whether every token in the tree stands for a value.
    pub open spec fn convertible(self) -> bool
        decreases self,
    {
        match self {
            AstView::Leaf(token) => token.tok.is_value(),
            AstView::Node { nodes, .. } => all_convertible(nodes),
        }
    }

    /// The runtime value that the tree stands for: a token is its value, a
    /// node the proper list of what its children stand for, in order.
    pub open spec fn value(self) -> Value
        decreases self,
    {
        match self {
            AstView::Leaf(token) => token.tok.value(),
            AstView::Node { nodes, .. } => list_value(values_of_nodes(nodes)),
        }
    }
}

/// Whether each tree of a sequence stands for a value.
pub open spec fn all_convertible(nodes: Seq<AstView>) -> bool
    decreases nodes,
{
    forall|i: int| 0 <= i < nodes.len() ==> (#[trigger] nodes[i]).convertible()
}

/// What each tree of a sequence stands for.
pub open spec fn values_of_nodes(nodes: Seq<AstView>) -> Seq<Value>
    decreases nodes,
{
    Seq::new(
        nodes.len(),
        |i: int|
            if 0 <= i < nodes.len() {
                nodes[i].value()
            } else {
                Value::Nil
            },
    )
}

/// The views of a sequence of trees.
pub open spec fn views_of(nodes: Seq<Ast>) -> Seq<AstView> {
    Seq::new(nodes.len(), |i: int| nodes[i]@)
}

/// The view of a node holds the views of its children.
pub proof fn lemma_node_view(rule: Rule, nodes: Vec<Ast>)
    ensures
        (Ast::Node { rule, nodes })@ == (AstView::Node { rule, nodes: views_of(nodes@) }),
{
    let a = Ast::Node { rule, nodes };
    match a@ {
        AstView::Node { rule: r, nodes: views } => {
            assert(r == rule);
            assert(views.len() == nodes@.len());
            assert(views =~= views_of(nodes@));
        },
        AstView::Leaf(_) => {},
    }
}

impl Ast {
    pub fn leaf(tok: Token) -> (r: Ast)
        ensures
            r == Ast::Leaf(tok),
    {
        Ast::Leaf(tok)
    }

    pub fn empty() -> (r: Ast)
        ensures
            r@ == (AstView::Node { rule: Rule::Empty, nodes: Seq::empty() }),
    {
        let nodes: Vec<Ast> = Vec::new();
        proof {
            lemma_node_view(Rule::Empty, nodes);
            assert(views_of(nodes@) =~= Seq::<AstView>::empty());
        }
        Ast::Node { rule: Rule::Empty, nodes }
    }

    pub fn node(rule: Rule, nodes: Vec<Ast>) -> (r: Ast)
        ensures
            r == (Ast::Node { rule, nodes }),
            r@ == (AstView::Node { rule, nodes: views_of(nodes@) }),
    {
        proof {
            lemma_node_view(rule, nodes);
        }
        Ast::Node { rule, nodes }
    }

    /// Gives a node another rule. A token has none.
    pub fn replace_rule(&mut self, new_rule: Rule)
        requires
            *old(self) is Node,
        ensures
            *final(self) == (Ast::Node { rule: new_rule, nodes: old(self)->nodes }),
            final(self)@ == (AstView::Node { rule: new_rule, nodes: old(self)@->Node_nodes }),
    {
        match self {
            Ast::Node { rule, nodes } => {
                proof {
                    lemma_node_view(*rule, *nodes);
                    lemma_node_view(new_rule, *nodes);
                }
                *rule = new_rule;
            },
            Ast::Leaf(_) => {},
        }
    }

    /// What kind of tree this is, in words.
    pub fn name(&self) -> (r: &'static str)
        ensures
            r@ == match *self {
                Ast::Leaf(_) => "Token"@,
                Ast::Node { rule: Rule::Exprs, .. } => "rule: Exprs"@,
                Ast::Node { rule: Rule::List, .. } => "rule: List"@,
                Ast::Node { rule: Rule::Empty, .. } => "rule: Empty"@,
                Ast::Node { rule: Rule::EmptyList, .. } => "rule: EmptyList"@,
            },
    {
        match self {
            Ast::Leaf(_) => "Token",
            Ast::Node { rule, .. } => match rule {
                Rule::Exprs => "rule: Exprs",
                Rule::List => "rule: List",
                Rule::Empty => "rule: Empty",
                Rule::EmptyList => "rule: EmptyList",
            },
        }
    }

    /// Whether the tree is a number. The empty tree is never asked.
    pub fn is_self_evaluating(&self) -> (b: bool)
        requires
            !(self@ matches AstView::Node { rule: Rule::Empty, .. }),
        ensures
            b == (self@ matches AstView::Leaf(t) && (t.tok is Float || t.tok is Int)),
    {
        match self {
            Ast::Leaf(leaf) => leaf.is_float() || leaf.is_int(),
            Ast::Node { .. } => false,
        }
    }

    /// Whether every token in the tree stands for a value, so that the
    /// tree stands for one.
    #[verifier::loop_isolation(false)]
    pub fn is_convertible(&self) -> (b: bool)
        ensures
            b == self@.convertible(),
        decreases self,
    {
        match self {
            Ast::Leaf(leaf) => leaf.is_symbol() || leaf.is_float() || leaf.is_int(),
            Ast::Node { rule, nodes } => {
                proof {
                    lemma_node_view(*rule, *nodes);
                }
                let ghost views = views_of(nodes@);
                let mut i: usize = 0;
                while i < nodes.len()
                    invariant
                        i <= nodes@.len(),
                        forall|j: int| 0 <= j < i ==> (#[trigger] views[j]).convertible(),
                    decreases nodes@.len() - i,
                {
                    proof {
                        vstd::std_specs::vec::axiom_vec_index_decreases(*nodes, i as int);
                        assert(views[i as int] == nodes@[i as int]@);
                    }
                    if !nodes[i].is_convertible() {
                        assert(!all_convertible(views));
                        return false;
                    }
                    i += 1;
                }
                assert(all_convertible(views));
                true
            },
        }
    }

    /// The runtime value that the tree stands for.
    #[verifier::loop_isolation(false)]
    pub fn to_obj(&self) -> (r: Obj)
        requires
            self@.convertible(),
        ensures
            r@ == self@.value(),
        decreases self,
    {
        match self {
            Ast::Leaf(leaf) => leaf.to_obj(),
            Ast::Node { rule, nodes } => {
                proof {
                    lemma_node_view(*rule, *nodes);
                }
                let ghost wanted = values_of_nodes(views_of(nodes@));
                let mut objs: Vec<Obj> = Vec::new();
                let mut i: usize = 0;
                while i < nodes.len()
                    invariant
                        i <= nodes@.len(),
                        objs@.len() == i,
                        forall|j: int|
                            0 <= j < nodes@.len() ==> (#[trigger] views_of(nodes@)[j]).convertible(),
                        forall|j: int| 0 <= j < i ==> (#[trigger] objs@[j])@ == wanted[j],
                    decreases nodes@.len() - i,
                {
                    assert(views_of(nodes@)[i as int].convertible());
                    proof {
                        vstd::std_specs::vec::axiom_vec_index_decreases(*nodes, i as int);
                    }
                    let obj = nodes[i].to_obj();
                    objs.push(obj);
                    i += 1;
                }
                assert(crate::obj::values_of(objs@) =~= wanted);
                Obj::list_from_vec(objs, None)
            },
        }
    }

    pub fn is_symbol(&self) -> (b: bool)
        ensures
            b == (self@ matches AstView::Leaf(t) && t.tok is Symbol),
    {
        match self {
            Ast::Leaf(token) => token.is_symbol(),
            _ => false,
        }
    }
}

} // verus!
