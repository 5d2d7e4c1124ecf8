//! The canonical tree: a node is either a leaf text atom or an ordered list
//! of child nodes. Equality is structural (deep and order-sensitive).

use vstd::prelude::*;
use vstd::string::StringExecFns;

verus! {

broadcast use vstd::std_specs::vec::group_vec_axioms, vstd::seq::group_seq_axioms;

/// Mathematical model of a canonical tree node: a leaf holding a sequence of
/// characters, or an ordered sequence of child nodes.
#[verifier::ext_equal]
pub enum TreeView {
    Atom(Seq<char>),
    List(Seq<TreeView>),
}

/// A canonical tree node: a leaf text atom or an ordered list of children.
#[derive(Debug, PartialEq)]
pub enum Tree {
    Atom(String),
    List(Vec<Tree>),
}

impl View for Tree {
    type V = TreeView;

    open spec fn view(&self) -> TreeView
        decreases self,
    {
        match self {
            Tree::Atom(text) => TreeView::Atom(text@),
            Tree::List(children) => TreeView::List(Tree::seq_view(children@)),
        }
    }
}

impl Tree {
    /// The views of a sequence of trees, element by element, in order.
    pub open spec fn seq_view(s: Seq<Tree>) -> Seq<TreeView>
        decreases s,
    {
        if s.len() == 0 {
            Seq::empty()
        } else {
            seq![s[0]@] + Tree::seq_view(s.subrange(1, s.len() as int))
        }
    }
}

/// The text wrapped in literal double-quote delimiters, with no internal
/// escaping: escape processing, if any, happened when the text was produced.
pub open spec fn quoted(text: Seq<char>) -> Seq<char> {
    seq!['"'] + text + seq!['"']
}

/// What `Tree::push` yields: appending to a list adds one more child at the
/// end; appending to an atom promotes it to a list holding the atom first.
pub open spec fn spec_push(t: TreeView, child: TreeView) -> TreeView {
    match t {
        TreeView::List(children) => TreeView::List(children.push(child)),
        TreeView::Atom(text) => TreeView::List(seq![TreeView::Atom(text), child]),
    }
}

/// What `Tree::extend` yields: each element of `children` appended in order.
pub open spec fn spec_extend(t: TreeView, children: Seq<TreeView>) -> TreeView {
    match t {
        TreeView::List(ch) => TreeView::List(ch + children),
        TreeView::Atom(text) => if children.len() == 0 {
            TreeView::Atom(text)
        } else {
            TreeView::List(seq![TreeView::Atom(text)] + children)
        },
    }
}

/// `Tree::seq_view` agrees with mapping the view over the sequence.
pub broadcast proof fn lemma_seq_view_is_map(s: Seq<Tree>)
    ensures
        #[trigger] Tree::seq_view(s) == s.map_values(|t: Tree| t@),
    decreases s.len(),
{
    if s.len() == 0 {
        assert(Tree::seq_view(s) =~= s.map_values(|t: Tree| t@));
    } else {
        let sub = s.subrange(1, s.len() as int);
        lemma_seq_view_is_map(sub);
        assert(Tree::seq_view(sub).len() == sub.len());
        assert(Tree::seq_view(s) == seq![s[0]@] + Tree::seq_view(sub));
        assert(Tree::seq_view(s).len() == s.len());
        assert forall|i: int| 0 <= i < s.len() implies Tree::seq_view(s)[i] == s[i]@ by {
            assert(Tree::seq_view(s) == seq![s[0]@] + Tree::seq_view(sub));
            if i > 0 {
                assert(sub[i - 1] == s[i]);
                assert(Tree::seq_view(sub)[i - 1] == (sub.map_values(|t: Tree| t@))[i - 1]);
                assert(Tree::seq_view(s)[i] == Tree::seq_view(sub)[i - 1]);
            } else {
                assert(Tree::seq_view(s)[0] == s[0]@);
            }
        }
        assert(Tree::seq_view(s) =~= s.map_values(|t: Tree| t@));
    }
}

impl Tree {
    /// Constructs a leaf atom holding the given text.
    pub fn atom(text: &str) -> (t: Tree)
        ensures
            t@ == TreeView::Atom(text@),
    {
        Tree::Atom(text.to_owned())
    }

    /// Constructs an internal node from an ordered sequence of children.
    pub fn list(children: Vec<Tree>) -> (t: Tree)
        ensures
            t@ == TreeView::List(children@.map_values(|c: Tree| c@)),
    {
        let t = Tree::List(children);
        proof {
            lemma_seq_view_is_map(children@);
        }
        t
    }

    /// Constructs a leaf atom holding the given text wrapped in double quotes.
    pub fn string(text: &str) -> (t: Tree)
        ensures
            t@ == TreeView::Atom(quoted(text@)),
    {
        let mut out = String::from_str("\"");
        out.append(text);
        out.append("\"");
        proof {
            reveal_strlit("\"");
            assert("\""@ =~= seq!['"']);
            assert(out@ =~= quoted(text@));
        }
        Tree::Atom(out)
    }

    /// Appends `child`: a list gains one more child at the end; an atom is
    /// promoted to a list holding the atom and then `child`.
    pub fn push(self, child: Tree) -> (r: Tree)
        ensures
            r@ == spec_push(self@, child@),
    {
        match self {
            Tree::List(mut children) => {
                proof {
                    lemma_seq_view_push(children@, child);
                }
                children.push(child);
                Tree::List(children)
            },
            Tree::Atom(text) => {
                let mut children: Vec<Tree> = Vec::new();
                children.push(Tree::Atom(text));
                children.push(child);
                let r = Tree::List(children);
                proof {
                    lemma_seq_view_is_map(children@);
                    assert(Tree::seq_view(children@) =~= seq![children@[0]@, children@[1]@]);
                }
                r
            },
        }
    }

    /// Appends each element of `children` in order, as repeated `push`es would.
    pub fn extend(self, mut children: Vec<Tree>) -> (r: Tree)
        ensures
            r@ == spec_extend(self@, children@.map_values(|c: Tree| c@)),
    {
        proof {
            lemma_seq_view_is_map(children@);
        }
        match self {
            Tree::List(mut ch) => {
                proof {
                    lemma_seq_view_add(ch@, children@);
                }
                ch.append(&mut children);
                Tree::List(ch)
            },
            Tree::Atom(text) => {
                if children.len() == 0 {
                    Tree::Atom(text)
                } else {
                    let mut ch: Vec<Tree> = Vec::new();
                    ch.push(Tree::Atom(text));
                    let ghost first = ch@;
                    proof {
                        lemma_seq_view_is_map(first);
                        assert(Tree::seq_view(first) =~= seq![TreeView::Atom(text@)]);
                        lemma_seq_view_add(first, children@);
                    }
                    ch.append(&mut children);
                    Tree::List(ch)
                }
            },
        }
    }
}

impl Tree {
    /// Structural equality, decided recursively: two trees are equal
    /// exactly when their shapes and leaf texts agree, deep and
    /// order-sensitive.
    #[verifier::loop_isolation(false)]
    pub fn structural_eq(&self, other: &Tree) -> (b: bool)
        ensures
            b == (self@ == other@),
        decreases self,
    {
        match (self, other) {
            (Tree::Atom(a), Tree::Atom(b)) => {
                let r = <String as PartialEq>::eq(a, b);
                proof {
                    assert(self@ == TreeView::Atom(a@));
                    assert(other@ == TreeView::Atom(b@));
                    assert(r == (self@ == other@));
                }
                r
            },
            (Tree::List(xs), Tree::List(ys)) => {
                if xs.len() != ys.len() {
                    proof {
                        lemma_seq_view_is_map(xs@);
                        lemma_seq_view_is_map(ys@);
                        assert(self@ == TreeView::List(Tree::seq_view(xs@)));
                        assert(other@ == TreeView::List(Tree::seq_view(ys@)));
                        assert(Tree::seq_view(xs@).len() != Tree::seq_view(ys@).len());
                    }
                    return false;
                }
                let mut j: usize = 0;
                while j < xs.len()
                    invariant
                        j <= xs@.len(),
                        forall|k: int| 0 <= k < j ==> (#[trigger] xs@[k])@ == ys@[k]@,
                    decreases xs@.len() - j,
                {
                    proof {
                        let me = *self;
                        let cs = me->List_0;
                        assert(decreases_to!(me => me->List_0));
                        assert(decreases_to!(cs => cs@[j as int]));
                    }
                    if !xs[j].structural_eq(&ys[j]) {
                        proof {
                            lemma_seq_view_is_map(xs@);
                            lemma_seq_view_is_map(ys@);
                            assert(Tree::seq_view(xs@)[j as int] != Tree::seq_view(ys@)[j as int]);
                        }
                        return false;
                    }
                    j = j + 1;
                }
                proof {
                    lemma_seq_view_is_map(xs@);
                    lemma_seq_view_is_map(ys@);
                    assert(Tree::seq_view(xs@) =~= Tree::seq_view(ys@));
                    assert(self@ == other@);
                }
                true
            },
            (Tree::Atom(a), Tree::List(ys)) => {
                proof {
                    assert(self@ == TreeView::Atom(a@));
                    assert(other@ == TreeView::List(Tree::seq_view(ys@)));
                }
                false
            },
            (Tree::List(xs), Tree::Atom(b)) => {
                proof {
                    assert(self@ == TreeView::List(Tree::seq_view(xs@)));
                    assert(other@ == TreeView::Atom(b@));
                }
                false
            },
        }
    }
}

/// The views of a concatenation are the concatenated views.
pub broadcast proof fn lemma_seq_view_add(a: Seq<Tree>, b: Seq<Tree>)
    ensures
        #[trigger] Tree::seq_view(a + b) == Tree::seq_view(a) + Tree::seq_view(b),
{
    lemma_seq_view_is_map(a + b);
    lemma_seq_view_is_map(a);
    lemma_seq_view_is_map(b);
    assert(Tree::seq_view(a + b) =~= Tree::seq_view(a) + Tree::seq_view(b));
}

/// The views of a sequence with one more element at the end.
pub broadcast proof fn lemma_seq_view_push(s: Seq<Tree>, t: Tree)
    ensures
        #[trigger] Tree::seq_view(s.push(t)) == Tree::seq_view(s).push(t@),
{
    lemma_seq_view_is_map(s.push(t));
    lemma_seq_view_is_map(s);
    assert(Tree::seq_view(s.push(t)) =~= Tree::seq_view(s).push(t@));
}

} // verus!
